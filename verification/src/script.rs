//! The script that drives the browser.
//!
//! It opens a page, signs in, searches, clicks, and takes a picture or a video. The
//! values that it works with stand at its top as JSON literals.

use vstd::prelude::*;
use crate::json_text::{json_literal, quote_json};
use crate::number::{decimal, u64_text};
use crate::search::{contains_text, ends, lemma_still_held, lemma_told, starts};

verus! {

/// What the script begins with, up to the address that it opens.
pub const SCRIPT_HEAD: &'static str = r#"const { chromium } = require("playwright");
const fs = require("fs");
const path = require("path");

const targetUrl = "#;

/// What the script does, behind the values that it works with.
pub const SCRIPT_BODY: &'static str = r#";

function selectorForTarget(target) {
  const normalized = String(target || "").toLowerCase();
  if (!normalized) return 'a[href]';
  if (normalized.includes("video") || normalized.includes("视频")) {
    return 'a[href*="/video/"], a[href*="video"], a[href*="watch"], a[href*="play"], a[href]';
  }
  if (normalized.includes("product") || normalized.includes("商品")) {
    return 'a[href*="item"], a[href*="product"], a[href*="goods"], a[href]';
  }
  if (normalized.includes("article") || normalized.includes("文章")) {
    return 'a[href*="article"], a[href*="post"], a[href*="read"], a[href]';
  }
  return 'a[href]';
}

async function runSearch(page, query) {
  if (!query) return;
  console.log("[tool] 正在调用浏览器工具在页面内搜索: " + query);
  const searchBox = page.locator('textarea[name="wd"]:visible, input[name="wd"]:visible, input[type="search"]:visible, input[name="q"]:visible, input[aria-label*="搜索"]:visible, textarea:visible, input:visible').first();
  await searchBox.waitFor({ state: "visible", timeout: 20000 });
  console.log("[tool] 已定位搜索输入框，正在输入关键词");
  await searchBox.fill(query);
  const searchButton = page.locator('input[type="submit"]:visible, button[type="submit"]:visible, #su:visible, button:has-text("搜索"):visible, input[value*="搜索"]:visible, button:visible').first();
  console.log("[tool] 正在提交搜索");
  if (await searchButton.count()) {
    await searchButton.click({ timeout: 10000 }).catch(async () => {
      await searchBox.press("Enter");
    });
  } else {
    await searchBox.press("Enter");
  }
  await page.waitForLoadState("domcontentloaded", { timeout: 45000 }).catch(() => {});
  await page.waitForTimeout(2500);
  console.log("[tool] 搜索完成，当前页面: " + page.url());
}

async function clickSearchResult(page) {
  console.log("[tool] 正在查找搜索结果链接");
  const selectors = [
    '#content_left h3 a',
    '.result h3 a',
    'h3 a[href]',
    'a[href^="http"]:visible',
    'a[href]:visible'
  ];
  for (const selector of selectors) {
    const candidates = page.locator(selector);
    const count = await candidates.count();
    console.log("[tool] 搜索结果选择器 " + selector + " 候选数量: " + count);
    for (let index = 0; index < Math.min(count, 12); index += 1) {
      const candidate = candidates.nth(index);
      try {
        const box = await candidate.boundingBox();
        if (!box || box.width < 40 || box.height < 12) continue;
        const href = await candidate.getAttribute("href").catch(() => "");
        const title = (await candidate.innerText({ timeout: 1000 }).catch(() => "")).replace(/\s+/g, " ").slice(0, 100);
        if (!href || /javascript:|#/.test(href)) continue;
        console.log("[tool] 正在进入搜索结果 #" + (index + 1) + " href=" + href + " title=" + (title || "-"));
        const popupPromise = page.waitForEvent("popup", { timeout: 10000 }).catch(() => null);
        await candidate.click({ timeout: 15000, force: true });
        const popup = await popupPromise;
        const nextPage = popup || page;
        await nextPage.waitForLoadState("domcontentloaded", { timeout: 45000 }).catch(() => {});
        await nextPage.waitForTimeout(3500);
        console.log("[tool] 已进入搜索结果页面: " + nextPage.url());
        return nextPage;
      } catch (error) {
        console.log("[tool] 搜索结果候选跳过: " + error.message);
      }
    }
  }
  console.log("[tool] 未能进入搜索结果，将截取当前搜索结果页");
  return page;
}

async function assistLogin(page) {
  if (!loginRequested) return;
  console.log("[tool] 用户要求登录，正在打开登录入口。为避免把密码写入脚本或日志，请在可见浏览器窗口中完成登录/验证码。");
  const loginSelectors = [
    'text=/登录|登陆|Sign in|Log in/i',
    '.header-login-entry',
    '.login-entry',
    'a[href*="login"]',
    'button:has-text("登录")'
  ];
  for (const selector of loginSelectors) {
    const entry = page.locator(selector).first();
    if (await entry.count()) {
      await entry.click({ timeout: 5000 }).catch(() => {});
      break;
    }
  }
  const waitSeconds = Math.max(1, waitForUserSeconds || 45);
  console.log("[tool] 等待用户在浏览器窗口中完成登录/验证码，最多等待 " + waitSeconds + " 秒");
  await page.waitForTimeout(waitSeconds * 1000);
  console.log("[tool] 登录等待结束，继续执行后续搜索与录制步骤");
}

async function enlargeVideo(page) {
  if (!fullscreenRequested) return;
  console.log("[tool] 用户要求放大视频页面，正在尝试聚焦播放器并进入全屏/影院模式");
  await page.bringToFront().catch(() => {});
  const video = page.locator('video').first();
  if (await video.count()) {
    await video.click({ timeout: 5000, force: true }).catch(() => {});
  }
  const buttons = [
    '[aria-label*="全屏"]',
    '[title*="全屏"]',
    '.bpx-player-ctrl-full',
    '.bpx-player-ctrl-web',
    'button:has-text("全屏")'
  ];
  for (const selector of buttons) {
    const button = page.locator(selector).first();
    if (await button.count()) {
      await button.click({ timeout: 3000, force: true }).catch(() => {});
      await page.waitForTimeout(1200);
      break;
    }
  }
  await page.keyboard.press("f").catch(() => {});
  await page.waitForTimeout(1800);
}

(async () => {
  console.log("[tool] Launching Chrome");
  const browser = await chromium.launch({ channel: "chrome", headless: false, args: ["--start-maximized"] });
  fs.mkdirSync(path.dirname(outputPath), { recursive: true });
  let context = null;
  let page;
  if (recordSeconds > 0) {
    fs.mkdirSync(videoTempDir, { recursive: true });
    console.log("[tool] 已启用浏览器录制，时长 " + recordSeconds + " 秒");
    context = await browser.newContext({
      viewport: { width: 1365, height: 900 },
      recordVideo: { dir: videoTempDir, size: { width: 1365, height: 900 } }
    });
    page = await context.newPage();
  } else {
    page = await browser.newPage({ viewport: { width: 1365, height: 900 } });
  }
  page.setDefaultTimeout(30000);
  console.log("[tool] Opening " + targetUrl);
  await page.goto(targetUrl, { waitUntil: "domcontentloaded", timeout: 90000 });
  await page.waitForTimeout(3500);
  let shotPage = page;
  await assistLogin(page);
  if (searchQuery) {
    await runSearch(page, searchQuery);
    shotPage = await clickSearchResult(page);
  }
  if (clickTarget) {
    if (scrollBeforeClick) {
      console.log("[tool] 用户要求导航到页面下方，正在向下滚动以加载下方视频区域");
      for (let step = 0; step < 4; step += 1) {
        await page.mouse.wheel(0, 720);
        await page.waitForTimeout(900);
      }
    }
    console.log("[tool] 正在查找可点击目标: " + clickTarget);
    const candidates = page.locator(selectorForTarget(clickTarget));
    const count = await candidates.count();
    console.log("[tool] 找到候选链接数量: " + count);
    let clicked = false;
    for (let index = 0; index < Math.min(count, 36); index += 1) {
      const candidate = candidates.nth(index);
      try {
        const box = await candidate.boundingBox();
        if (!box || box.width < 40 || box.height < 30) continue;
        if (scrollBeforeClick && box.y < 120) continue;
        const href = await candidate.getAttribute("href").catch(() => "");
        const title = (await candidate.innerText({ timeout: 1000 }).catch(() => "")).replace(/\s+/g, " ").slice(0, 80);
        console.log("[tool] 正在点击候选 #" + (index + 1) + " href=" + (href || "-") + " title=" + (title || "-"));
        const popupPromise = page.waitForEvent("popup", { timeout: 10000 }).catch(() => null);
        await candidate.click({ timeout: 15000, force: true });
        const popup = await popupPromise;
        if (popup) {
          shotPage = popup;
          console.log("[tool] 目标在新标签页打开");
        } else {
          shotPage = page;
          console.log("[tool] 目标在当前标签页打开");
        }
        clicked = true;
        break;
      } catch (error) {
        console.log("[tool] 候选跳过: " + error.message);
      }
    }
    if (!clicked) {
      console.log("[tool] 没有找到匹配的可点击目标，将截取当前页面");
    }
    await shotPage.waitForLoadState("domcontentloaded", { timeout: 45000 }).catch(() => {});
    await shotPage.waitForTimeout(5000);
  }
  await enlargeVideo(shotPage);
  if (recordSeconds > 0) {
    console.log("[tool] 正在录制目标页面，等待 " + recordSeconds + " 秒");
    await shotPage.waitForTimeout(recordSeconds * 1000);
    const video = shotPage.video();
    if (context) {
      await context.close();
    }
    if (video) {
      await video.saveAs(outputPath);
      console.log("[tool] 视频已写入: " + outputPath);
    } else {
      const files = fs.readdirSync(videoTempDir).filter((name) => name.endsWith(".webm"));
      if (!files.length) throw new Error("No Playwright video file was produced");
      const latest = files
        .map((name) => path.join(videoTempDir, name))
        .sort((a, b) => fs.statSync(b).mtimeMs - fs.statSync(a).mtimeMs)[0];
      fs.copyFileSync(latest, outputPath);
      console.log("[tool] 视频已写入: " + outputPath);
    }
    await browser.close();
  } else {
    console.log("[tool] 正在截图");
    await shotPage.screenshot({ path: outputPath, fullPage: false });
    console.log("[tool] 截图已写入: " + outputPath);
    await browser.close();
  }
})().catch((error) => {
  console.error("[tool] Playwright automation failed: " + (error && error.stack ? error.stack : error));
  process.exit(1);
});
"#;

/// What the script works with.
pub struct ScriptValues {
    pub url: String,
    pub output: String,
    pub search_query: String,
    pub click_target: String,
    pub scroll_before_click: bool,
    pub record_seconds: u64,
    pub login_requested: bool,
    pub fullscreen_requested: bool,
    pub wait_for_user_seconds: u64,
    pub video_dir: String,
}

/// A truth value in words.
pub open spec fn bool_chars(b: bool) -> Seq<char> {
    if b {
        "true"@
    } else {
        "false"@
    }
}

/// A truth value in words.
pub fn bool_text(b: bool) -> (r: &'static str)
    ensures
        r@ == bool_chars(b),
{
    if b {
        "true"
    } else {
        "false"
    }
}

/// The text of the script.
pub open spec fn script_chars(v: ScriptValues) -> Seq<char> {
    SCRIPT_HEAD@ + json_literal(v.url@) + ";\nconst outputPath = "@ + json_literal(v.output@)
        + ";\nconst searchQuery = "@ + json_literal(v.search_query@) + ";\nconst clickTarget = "@
        + json_literal(v.click_target@) + ";\nconst scrollBeforeClick = "@ + bool_chars(
        v.scroll_before_click,
    ) + ";\nconst recordSeconds = "@ + decimal(v.record_seconds as int)
        + ";\nconst loginRequested = "@ + bool_chars(v.login_requested)
        + ";\nconst fullscreenRequested = "@ + bool_chars(v.fullscreen_requested)
        + ";\nconst waitForUserSeconds = "@ + decimal(v.wait_for_user_seconds as int)
        + ";\nconst videoTempDir = "@ + json_literal(v.video_dir@) + SCRIPT_BODY@
}

/// Writes the script.
pub fn playwright_node_script(v: &ScriptValues) -> (r: String)
    ensures
        r@ == script_chars(*v),
{
    let mut out = SCRIPT_HEAD.to_string();
    out.append(quote_json(v.url.as_str()).as_str());
    out.append(";\nconst outputPath = ");
    out.append(quote_json(v.output.as_str()).as_str());
    out.append(";\nconst searchQuery = ");
    out.append(quote_json(v.search_query.as_str()).as_str());
    out.append(";\nconst clickTarget = ");
    out.append(quote_json(v.click_target.as_str()).as_str());
    out.append(";\nconst scrollBeforeClick = ");
    out.append(bool_text(v.scroll_before_click));
    out.append(";\nconst recordSeconds = ");
    out.append(u64_text(v.record_seconds).as_str());
    out.append(";\nconst loginRequested = ");
    out.append(bool_text(v.login_requested));
    out.append(";\nconst fullscreenRequested = ");
    out.append(bool_text(v.fullscreen_requested));
    out.append(";\nconst waitForUserSeconds = ");
    out.append(u64_text(v.wait_for_user_seconds).as_str());
    out.append(";\nconst videoTempDir = ");
    out.append(quote_json(v.video_dir.as_str()).as_str());
    out.append(SCRIPT_BODY);
    out
}

/// A script sets each of its names to the value that is given for it: texts as literals,
/// numbers in digits, and truth values as words. What it does with them comes last.
#[verifier::rlimit(40)]
pub proof fn law_scripts_set_their_values(v: ScriptValues)
    ensures
        ({
            let script = script_chars(v);
            &&& starts(script, SCRIPT_HEAD@ + json_literal(v.url@) + ";\n"@)
            &&& contains_text(script, "const outputPath = "@ + json_literal(v.output@))
            &&& contains_text(script, "const searchQuery = "@ + json_literal(v.search_query@))
            &&& contains_text(script, "const clickTarget = "@ + json_literal(v.click_target@))
            &&& v.scroll_before_click ==> contains_text(
                script,
                "const scrollBeforeClick = "@ + "true"@,
            )
            &&& !v.scroll_before_click ==> contains_text(
                script,
                "const scrollBeforeClick = "@ + "false"@,
            )
            &&& contains_text(script, "const recordSeconds = "@ + decimal(v.record_seconds as int))
            &&& v.login_requested ==> contains_text(script, "const loginRequested = "@ + "true"@)
            &&& !v.login_requested ==> contains_text(script, "const loginRequested = "@ + "false"@)
            &&& v.fullscreen_requested ==> contains_text(
                script,
                "const fullscreenRequested = "@ + "true"@,
            )
            &&& !v.fullscreen_requested ==> contains_text(
                script,
                "const fullscreenRequested = "@ + "false"@,
            )
            &&& contains_text(
                script,
                "const waitForUserSeconds = "@ + decimal(v.wait_for_user_seconds as int),
            )
            &&& ends(script, "const videoTempDir = "@ + json_literal(v.video_dir@) + SCRIPT_BODY@)
        }),
{
    reveal_strlit(";\n");
    reveal_strlit(";\nconst outputPath = ");
    reveal_strlit("const outputPath = ");
    reveal_strlit(";\nconst searchQuery = ");
    reveal_strlit("const searchQuery = ");
    reveal_strlit(";\nconst clickTarget = ");
    reveal_strlit("const clickTarget = ");
    reveal_strlit(";\nconst scrollBeforeClick = ");
    reveal_strlit("const scrollBeforeClick = ");
    reveal_strlit(";\nconst recordSeconds = ");
    reveal_strlit("const recordSeconds = ");
    reveal_strlit(";\nconst loginRequested = ");
    reveal_strlit("const loginRequested = ");
    reveal_strlit(";\nconst fullscreenRequested = ");
    reveal_strlit("const fullscreenRequested = ");
    reveal_strlit(";\nconst waitForUserSeconds = ");
    reveal_strlit("const waitForUserSeconds = ");
    reveal_strlit(";\nconst videoTempDir = ");
    reveal_strlit("const videoTempDir = ");
    assert(";\nconst outputPath = "@ =~= ";\n"@ + "const outputPath = "@);
    assert(";\nconst searchQuery = "@ =~= ";\n"@ + "const searchQuery = "@);
    assert(";\nconst clickTarget = "@ =~= ";\n"@ + "const clickTarget = "@);
    assert(";\nconst scrollBeforeClick = "@ =~= ";\n"@ + "const scrollBeforeClick = "@);
    assert(";\nconst recordSeconds = "@ =~= ";\n"@ + "const recordSeconds = "@);
    assert(";\nconst loginRequested = "@ =~= ";\n"@ + "const loginRequested = "@);
    assert(";\nconst fullscreenRequested = "@ =~= ";\n"@ + "const fullscreenRequested = "@);
    assert(";\nconst waitForUserSeconds = "@ =~= ";\n"@ + "const waitForUserSeconds = "@);
    assert(";\nconst videoTempDir = "@ =~= ";\n"@ + "const videoTempDir = "@);
    let end = ";\n"@;
    let t0 = SCRIPT_HEAD@ + json_literal(v.url@);
    let none: Seq<Seq<char>> = seq![];
    let (t1, h1) = lemma_set(t0, none, end, "const outputPath = "@, json_literal(v.output@));
    let query = json_literal(v.search_query@);
    let (t2, h2) = lemma_set(t1, h1, end, "const searchQuery = "@, query);
    let target = json_literal(v.click_target@);
    let (t3, h3) = lemma_set(t2, h2, end, "const clickTarget = "@, target);
    let scroll = bool_chars(v.scroll_before_click);
    let (t4, h4) = lemma_set(t3, h3, end, "const scrollBeforeClick = "@, scroll);
    let seconds = decimal(v.record_seconds as int);
    let (t5, h5) = lemma_set(t4, h4, end, "const recordSeconds = "@, seconds);
    let login = bool_chars(v.login_requested);
    let (t6, h6) = lemma_set(t5, h5, end, "const loginRequested = "@, login);
    let full = bool_chars(v.fullscreen_requested);
    let (t7, h7) = lemma_set(t6, h6, end, "const fullscreenRequested = "@, full);
    let wait = decimal(v.wait_for_user_seconds as int);
    let (t8, h8) = lemma_set(t7, h7, end, "const waitForUserSeconds = "@, wait);
    let video = json_literal(v.video_dir@);
    let (t9, h9) = lemma_set(t8, h8, end, "const videoTempDir = "@, video);
    let script = script_chars(v);
    assert(script == t9 + SCRIPT_BODY@);
    assert(contains_text(t9, h9[0]) && contains_text(t9, h9[1]) && contains_text(t9, h9[2])
        && contains_text(t9, h9[3]) && contains_text(t9, h9[4]) && contains_text(t9, h9[5])
        && contains_text(t9, h9[6]) && contains_text(t9, h9[7]));
    lemma_still_held(t9, SCRIPT_BODY@, h9[0]);
    lemma_still_held(t9, SCRIPT_BODY@, h9[1]);
    lemma_still_held(t9, SCRIPT_BODY@, h9[2]);
    lemma_still_held(t9, SCRIPT_BODY@, h9[3]);
    lemma_still_held(t9, SCRIPT_BODY@, h9[4]);
    lemma_still_held(t9, SCRIPT_BODY@, h9[5]);
    lemma_still_held(t9, SCRIPT_BODY@, h9[6]);
    lemma_still_held(t9, SCRIPT_BODY@, h9[7]);
    let head = t0 + end;
    assert(t1.subrange(0, head.len() as int) =~= head);
    lemma_same_start(t1, t2, head);
    lemma_same_start(t2, t3, head);
    lemma_same_start(t3, t4, head);
    lemma_same_start(t4, t5, head);
    lemma_same_start(t5, t6, head);
    lemma_same_start(t6, t7, head);
    lemma_same_start(t7, t8, head);
    lemma_same_start(t8, t9, head);
    assert(script.take(t9.len() as int) =~= t9);
    lemma_same_start(t9, script, head);
    let tail = "const videoTempDir = "@ + video + SCRIPT_BODY@;
    assert(script =~= t8 + end + tail);
    assert(script.subrange(script.len() - tail.len(), script.len() as int) =~= tail);
}

/// A statement that is put behind a script sets its name, and leaves the others as they are.
proof fn lemma_set(
    s: Seq<char>,
    told: Seq<Seq<char>>,
    end: Seq<char>,
    label: Seq<char>,
    value: Seq<char>,
) -> (r: (Seq<char>, Seq<Seq<char>>))
    requires
        forall|i: int| 0 <= i < told.len() ==> contains_text(s, #[trigger] told[i]),
    ensures
        r.0 == s + (end + label) + value,
        r.0 == s + end + label + value,
        r.1 == told.push(label + value),
        forall|i: int| 0 <= i < r.1.len() ==> contains_text(r.0, #[trigger] r.1[i]),
        r.0.len() >= s.len() && r.0.take(s.len() as int) == s,
{
    let whole = s + (end + label) + value;
    assert(whole =~= s + end + label + value);
    assert forall|i: int| 0 <= i < told.len() implies contains_text(s + end, #[trigger] told[i]) by {
        lemma_still_held(s, end, told[i]);
    }
    let r = lemma_told(s + end, told, label, value);
    assert(whole.take(s.len() as int) =~= s);
    (whole, r)
}

/// What is put behind a text leaves its beginning as it is.
proof fn lemma_same_start(s: Seq<char>, t: Seq<char>, head: Seq<char>)
    requires
        starts(s, head),
        t.len() >= s.len() && t.take(s.len() as int) == s,
    ensures
        starts(t, head),
{
    assert(t.subrange(0, head.len() as int) =~= s.subrange(0, head.len() as int)) by {
        assert forall|i: int| 0 <= i < head.len() implies t[i] == s[i] by {
            assert(t.take(s.len() as int)[i] == s[i]);
        }
    }
}

} // verus!
