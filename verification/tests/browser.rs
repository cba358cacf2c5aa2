use std::path::PathBuf;

use ds_code::browser::{
    choose_npx, fail_media, find_playwright_node_modules, finish_media, launch_media,
    media_file_name, name_media, no_address, plan_media_job, screenshot_output_dir_for_request, script_args,
    script_path, script_path_at, start_browser_media, tell_output, tell_plan, tell_waiting, video_dir, MediaExit, MediaJob,
    MediaLaunch, MediaStep, NpxChoice,
};
use ds_code::json_text::parse_json;
use ds_code::paths::{FilePath, PathBase};
use ds_code::plan::{
    infer_browser_action_plan, infer_browser_plan_from_request, planning_http_error,
    read_browser_plan, settle_plan, start_browser_plan, BrowserToolPlan, PLANNING_PROMPT,
};
use ds_code::redact::{redact_args, redact_sensitive_text};
use ds_code::request::{
    current_user_request, looks_like_mcp_tool_request, looks_like_web_media_request,
    looks_like_web_recording_request, looks_like_web_screenshot_request,
    should_click_video_before_screenshot, should_fullscreen_video, should_prepare_login,
    should_scroll_before_click, wording,
};
use ds_code::script::{playwright_node_script, ScriptValues};
use ds_code::target::{
    extract_json_object, extract_record_seconds, extract_screenshot_url, extract_search_query,
    normalize_browser_start_url, sanitize_filename_piece,
};

#[test]
fn the_request_follows_the_last_heading() {
    assert_eq!(current_user_request("  hi "), "hi");
    assert_eq!(
        current_user_request("x 当前用户问题：a 当前用户问题： b \nCurrent user request: c"),
        "b \nCurrent user request: c"
    );
    assert_eq!(current_user_request("x Current user request: c "), "c");
}

#[test]
fn requests_hold_no_heading() {
    let zh = "当前用户问题：";
    let en = "Current user request:";
    for prompt in [
        format!("{}{}x", zh, zh),
        format!("a{}b{}c", zh, zh),
        format!("{}a{}b", en, en),
        format!("a{}b{}", en, en),
    ] {
        let request = current_user_request(&prompt);
        assert!(!request.contains(zh) && !request.contains(en));
    }
}

#[test]
fn pages_and_pictures_are_recognised_together() {
    assert!(looks_like_web_screenshot_request("给百度首页截图"));
    assert!(looks_like_web_screenshot_request("SCREENSHOT of HTTPS://a.b"));
    assert!(!looks_like_web_screenshot_request("截图"));
    assert!(!looks_like_web_screenshot_request("打开百度"));
    assert!(looks_like_web_recording_request("录制B站"));
    assert!(!looks_like_web_recording_request("录制"));
    assert!(looks_like_web_media_request("record bilibili"));
    assert!(!looks_like_web_media_request("hello"));
}

#[test]
fn requests_for_tools_are_recognised() {
    for s in ["读取文件", "use the Browser", "下载", "see http://x"] {
        assert!(looks_like_mcp_tool_request(s), "{}", s);
    }
    assert!(!looks_like_mcp_tool_request("写一首诗"));
    // what comes before the heading does not count
    assert!(!looks_like_mcp_tool_request("文件 当前用户问题：你好"));
}

#[test]
fn requests_for_pages_want_a_tool() {
    for s in ["百度 截图", "bilibili 图片", "record https://a"] {
        assert!(looks_like_web_media_request(s));
        assert!(looks_like_mcp_tool_request(s));
    }
}

#[test]
fn wishes_are_recognised_by_wording() {
    assert!(should_click_video_before_screenshot("点击一个视频"));
    assert!(should_click_video_before_screenshot("Click the VIDEO"));
    assert!(!should_click_video_before_screenshot("视频"));
    assert!(should_scroll_before_click("往下看"));
    assert!(should_scroll_before_click("Scroll"));
    assert!(should_prepare_login("请登录"));
    assert!(should_prepare_login("Sign In"));
    assert!(should_fullscreen_video("全屏播放"));
    assert!(should_fullscreen_video("MAXIMIZE it"));
    assert!(!should_fullscreen_video("小窗"));
}

#[test]
fn small_letters_are_those_of_the_standard_library() {
    for s in ["ABC", "ÀÉ", "ΑΣ", "İ", "密"] {
        let w = wording(s);
        let lower: String = w.lower.iter().collect();
        assert_eq!(lower, s.to_lowercase());
    }
    let all: String = ('\0'..=char::MAX).collect();
    assert!(wording(&all).lower.iter().all(|c| !c.is_ascii_uppercase()));
}

#[test]
fn addresses_are_found_in_requests() {
    assert_eq!(
        extract_screenshot_url("看 (https://a.b/c)，好").as_deref(),
        Some("https://a.b/c)，好")
    );
    assert_eq!(extract_screenshot_url("看(https://a.b/c)"), None);
    assert_eq!(
        extract_screenshot_url("看 (https://a.b/c)， 好").as_deref(),
        Some("https://a.b/c")
    );
    assert_eq!(
        extract_screenshot_url("BILIBILI").as_deref(),
        Some("https://www.bilibili.com")
    );
    assert_eq!(
        extract_screenshot_url("百度").as_deref(),
        Some("https://www.baidu.com")
    );
    assert_eq!(extract_screenshot_url("ftp://x"), None);
}

#[test]
fn addresses_of_plans_are_completed() {
    assert_eq!(
        normalize_browser_start_url(" \"http://a\" ").as_deref(),
        Some("http://a")
    );
    assert_eq!(
        normalize_browser_start_url("'//www.x.com'").as_deref(),
        Some("https://www.x.com")
    );
    assert_eq!(normalize_browser_start_url("a b.c"), None);
    assert_eq!(normalize_browser_start_url("localhost"), None);
    assert_eq!(normalize_browser_start_url(" "), None);
}

#[test]
fn addresses_are_web_addresses() {
    for s in ["百度", "b站", "www.x.com", "https://y"] {
        for url in [extract_screenshot_url(s), normalize_browser_start_url(s)] {
            if let Some(url) = url {
                assert!(url.starts_with("http://") || url.starts_with("https://"));
            }
        }
    }
}

#[test]
fn search_terms_follow_their_markers() {
    assert_eq!(extract_search_query("打开百度"), "");
    assert_eq!(extract_search_query("搜索今日热点相关新闻并截图"), "今日热点相关新闻");
    assert_eq!(extract_search_query("任意搜索一些猫 然后点开"), "猫");
    assert_eq!(extract_search_query("去搜一些 狗，截图"), "狗");
    assert_eq!(extract_search_query("搜索 rust语言。好"), "rust语言");
    assert_eq!(extract_search_query("please search cats, now"), "cats");
    assert_eq!(extract_search_query("Search cats"), "");
    assert_eq!(extract_search_query("搜一下"), "");
}

#[test]
fn durations_are_kept_within_two_minutes() {
    assert_eq!(extract_record_seconds("录 7s 视频"), 7);
    assert_eq!(extract_record_seconds("录1080p 30秒"), 30);
    assert_eq!(extract_record_seconds("500S"), 120);
    assert_eq!(extract_record_seconds("0秒"), 1);
    assert_eq!(extract_record_seconds("录几秒 12"), 12);
    assert_eq!(extract_record_seconds("12"), 10);
    assert_eq!(extract_record_seconds("99999999999999999999s 5s"), 5);
    assert_eq!(extract_record_seconds("录制"), 10);
}

#[test]
fn names_are_plain_and_short() {
    assert_eq!(sanitize_filename_piece("a/b?c=密.d"), "abc.d");
    assert_eq!(sanitize_filename_piece("密码"), "page");
    assert_eq!(sanitize_filename_piece(&"x".repeat(60)), "x".repeat(48));
}

#[test]
fn objects_are_cut_out_of_answers() {
    assert_eq!(extract_json_object("好 {\"a\":{}} 完").as_deref(), Some("{\"a\":{}}"));
    let text = "a } b { c } d } e { f";
    assert_eq!(extract_json_object(text).as_deref(), Some("{ c } d }"));
    assert_eq!(extract_json_object("} {"), None);
    assert_eq!(extract_json_object("{"), None);
    assert_eq!(extract_json_object(""), None);
}

fn blank_plan() -> BrowserToolPlan {
    BrowserToolPlan {
        start_url: String::new(),
        search_query: String::new(),
        click_target: String::new(),
        screenshot: false,
        record_seconds: 0,
        login_required: false,
        fullscreen: false,
        wait_for_user_seconds: 0,
        action_plan: Vec::new(),
        save_location: String::new(),
    }
}

#[test]
fn plans_are_inferred_from_wording() {
    let plan = infer_browser_plan_from_request("登录B站，搜索 猫，进入视频 全屏 录制 7s 保存到桌面");
    assert_eq!(plan.start_url, "https://www.bilibili.com");
    assert_eq!(plan.search_query, "猫");
    assert_eq!(plan.click_target, "video");
    assert!(!plan.screenshot);
    assert_eq!(plan.record_seconds, 7);
    assert!(plan.login_required && plan.fullscreen);
    assert_eq!(plan.wait_for_user_seconds, 45);
    assert_eq!(
        plan.action_plan,
        vec!["assist_login", "search", "click_video", "fullscreen", "record_video", "save_file"]
    );
    assert_eq!(plan.save_location, "desktop");
}

#[test]
fn click_targets_are_inferred_from_wording() {
    for (request, target) in [
        ("a video", "video"),
        ("商品", "product"),
        ("Article", "article"),
        ("任意", "link"),
        ("nothing", ""),
    ] {
        let plan = infer_browser_plan_from_request(request);
        assert_eq!(plan.click_target, target);
    }
    assert_eq!(
        infer_browser_action_plan("百度 点击 截图"),
        vec!["click_result", "screenshot"]
    );
}

#[test]
fn planning_needs_a_key() {
    assert_eq!(
        start_browser_plan("", "u", "m", "r").err(),
        Some("API key is empty".to_string())
    );
    let sent = start_browser_plan("k", "https://x", "m", "打开").ok().unwrap();
    assert_eq!(sent.url, "https://x/chat/completions");
    let body: serde_json::Value = serde_json::from_str(&sent.body).unwrap();
    assert_eq!(body["stream"], serde_json::Value::Bool(false));
    assert_eq!(body["temperature"].as_i64(), Some(0));
    assert_eq!(
        body["messages"][0]["content"].as_str().unwrap(),
        format!("{}打开", PLANNING_PROMPT)
    );
    assert!(PLANNING_PROMPT.ends_with("用户请求："));
}

#[test]
fn plans_are_found_in_answers() {
    let reply =
        parse_json(r#"{"choices":[{"message":{"content":"ok {\"screenshot\":true} end"}}]}"#).unwrap();
    assert_eq!(read_browser_plan(&reply), Ok("{\"screenshot\":true}".to_string()));
    let reply = parse_json(r#"{"choices":[]}"#).unwrap();
    assert_eq!(
        read_browser_plan(&reply),
        Err("planning response has no message.content".to_string())
    );
    let long = "密".repeat(200);
    let reply = parse_json(&format!(
        "{{\"choices\":[{{\"message\":{{\"content\":\"{}\"}}}}]}}",
        long
    ))
    .unwrap();
    assert_eq!(
        read_browser_plan(&reply),
        Err(format!("planning response is not JSON: {}", "密".repeat(160)))
    );
    assert_eq!(planning_http_error("404 Not Found"), "planning HTTP status 404 Not Found");
}

#[test]
fn a_failed_plan_gives_way_to_the_wording() {
    let (plan, notice) = settle_plan("百度 截图", Err("password: x timed out".to_string()));
    assert_eq!(plan.start_url, "https://www.baidu.com");
    assert_eq!(
        notice,
        "[tool] 模型工具计划不可用，使用本地兜底计划。原因：*** *** timed out\r\n"
    );
    let mut given = blank_plan();
    given.start_url = "x.y".to_string();
    let (plan, notice) = settle_plan("百度 截图", Ok(given));
    assert_eq!(plan.start_url, "x.y");
    assert_eq!(notice, "[tool] 模型已返回工具计划，准备执行。\r\n");
}

#[test]
fn secrets_are_hidden() {
    assert_eq!(redact_sensitive_text("my password is x"), "my *** is x");
    assert_eq!(redact_sensitive_text("密码 abc  def"), "*** *** def");
    assert_eq!(redact_sensitive_text("Password: abc pwd=1 z"), "*** *** *** z");
    assert_eq!(redact_sensitive_text("密码： 密码： x"), "*** *** x");
    assert_eq!(redact_sensitive_text("  a   b "), "a b");
}

#[test]
fn redacted_words_stay_apart_and_say_nothing_of_passwords() {
    let text = "login user PASSWORD: hunter2 then passwd=1 密码是 abc end";
    let shown = redact_sensitive_text(text);
    assert_eq!(shown.split_whitespace().count(), text.split_whitespace().count());
    for word in shown.split_whitespace() {
        let lower = word.to_lowercase();
        assert!(!lower.contains("password") && !lower.contains("passwd") && !word.contains("密码"));
    }
    assert!(!shown.contains("hunter2") && !shown.contains("abc"));
}

#[test]
fn logged_arguments_hide_keys() {
    let args: Vec<String> = ["exec", "--api-key", "sk-1", "my password: x"]
        .iter()
        .map(|s| s.to_string())
        .collect();
    assert_eq!(redact_args(&args), vec!["exec", "--api-key", "***", "my *** ***"]);
}

#[test]
fn runs_begin_with_what_the_user_asks_for() {
    let start = start_browser_media("rules 当前用户问题： 录制 bilibili 5s");
    assert_eq!(start.request, "录制 bilibili 5s");
    assert_eq!(start.record_seconds, 5);
    assert_eq!(start.notice, "[tool] 正在请求模型生成结构化浏览器录制计划...\r\n");
    let start = start_browser_media("百度 截图");
    assert_eq!(start.record_seconds, 0);
    assert_eq!(start.notice, "[tool] 正在请求模型生成结构化浏览器截图计划...\r\n");
}

#[test]
fn jobs_follow_the_plan_and_the_request() {
    let mut plan = blank_plan();
    plan.start_url = "\"www.x.com\"".to_string();
    plan.search_query = " 猫 ".to_string();
    plan.record_seconds = 500;
    plan.wait_for_user_seconds = 999;
    plan.action_plan = vec!["open".to_string(), "search".to_string()];
    let job = plan_media_job("往下 看", &plan, 0).unwrap();
    assert_eq!(job.url, "https://www.x.com");
    assert_eq!(job.search_query, "猫");
    assert_eq!(job.click_target, "search_result");
    assert!(job.scroll_before_click);
    assert_eq!(job.record_seconds, 120);
    assert_eq!(job.wait_for_user_seconds, 180);
    assert!(!job.login_requested && !job.fullscreen_requested);
    assert_eq!(
        tell_plan(&job, &plan),
        "[tool] 浏览器计划：start_url=https://www.x.com, search_query=猫, click_target=-, screenshot=false, save_location=workspace, record_seconds=120, login_required=false, fullscreen=false, wait_for_user_seconds=999, actions=open -> search\r\n"
    );
}

#[test]
fn jobs_without_an_address_are_refused() {
    assert!(plan_media_job("你好", &blank_plan(), 3).is_none());
    assert_eq!(
        no_address(),
        ("没有找到可截图的网址。请提供 http 或 https 开头的网址。".to_string(), -1)
    );
    let job = plan_media_job("百度 登录 打开视频", &blank_plan(), 3).unwrap();
    assert_eq!(job.url, "https://www.baidu.com");
    assert_eq!(job.click_target, "video");
    assert_eq!(job.record_seconds, 3);
    assert!(job.login_requested);
    assert_eq!(job.wait_for_user_seconds, 45);
}

#[test]
fn runs_stay_within_their_limits() {
    for (record, wait) in [(0u64, 0u64), (1, 1), (120, 180), (u64::MAX, u64::MAX)] {
        let mut plan = blank_plan();
        plan.start_url = "a.b".to_string();
        plan.record_seconds = record;
        plan.wait_for_user_seconds = wait;
        let job = plan_media_job("录制 https://a 9s login", &plan, 9).unwrap();
        assert!(job.record_seconds <= 120 && job.record_seconds > 0);
        assert!(job.wait_for_user_seconds <= 180 && job.wait_for_user_seconds > 0);
    }
}

fn job(click: &str, seconds: u64) -> MediaJob {
    MediaJob {
        url: "https://www.x.com/a".to_string(),
        search_query: String::new(),
        click_target: click.to_string(),
        scroll_before_click: true,
        record_seconds: seconds,
        login_requested: false,
        fullscreen_requested: true,
        wait_for_user_seconds: 0,
    }
}

#[test]
fn jobs_on_the_page_run_a_script() {
    let (notice, launch) = launch_media(&job("video", 0), "/o.png", "/v");
    assert_eq!(
        notice.as_deref(),
        Some("[tool] 已识别为“浏览器自动化后截图”，search_query=-, click_target=video, scroll_before_click=true, login_requested=false, fullscreen_requested=true, wait_for_user_seconds=0，将执行浏览器自动化脚本...\r\n")
    );
    match launch {
        MediaLaunch::Script(values, step) => {
            assert_eq!(values.output, "/o.png");
            assert_eq!(values.video_dir, "/v");
            assert!(values.scroll_before_click);
            assert_eq!(
                fail_media(step, 0, "no"),
                ("创建 Playwright 自动化脚本失败：no".to_string(), -1)
            );
        }
        MediaLaunch::Picture(_) => panic!("no script"),
    }
    let (notice, launch) = launch_media(&job("", 4), "/o", "/v");
    assert!(notice.is_none());
    match launch {
        MediaLaunch::Script(values, step) => {
            assert!(!values.scroll_before_click);
            assert_eq!(values.record_seconds, 4);
            assert_eq!(
                fail_media(step, 5, "no"),
                ("创建 Playwright 录制脚本失败：no".to_string(), -1)
            );
        }
        MediaLaunch::Picture(_) => panic!("no script"),
    }
}

#[test]
fn plain_pictures_need_no_script() {
    let (notice, launch) = launch_media(&job("", 0), "/o.png", "/v");
    assert!(notice.is_none());
    match launch {
        MediaLaunch::Picture(args) => assert_eq!(
            args,
            vec![
                "playwright",
                "screenshot",
                "--browser=chromium",
                "--channel=chrome",
                "--timeout=90000",
                "https://www.x.com/a",
                "/o.png"
            ]
        ),
        MediaLaunch::Script(_, _) => panic!("a script"),
    }
    assert_eq!(
        script_args("/s.cjs"),
        vec!["--yes", "--package=playwright", "--", "node", "/s.cjs"]
    );
}

#[test]
fn scripts_hold_their_values_as_literals() {
    let script = playwright_node_script(&ScriptValues {
        url: "https://a\"b".to_string(),
        output: "C:\\o.png".to_string(),
        search_query: "猫\n".to_string(),
        click_target: String::new(),
        scroll_before_click: true,
        record_seconds: 7,
        login_requested: false,
        fullscreen_requested: true,
        wait_for_user_seconds: 45,
        video_dir: "/v".to_string(),
    });
    assert!(script.starts_with(
        "const { chromium } = require(\"playwright\");\nconst fs = require(\"fs\");\nconst path = require(\"path\");\n\nconst targetUrl = \"https://a\\\"b\";\nconst outputPath = \"C:\\\\o.png\";\nconst searchQuery = \"猫\\n\";\nconst clickTarget = \"\";\nconst scrollBeforeClick = true;\nconst recordSeconds = 7;\nconst loginRequested = false;\nconst fullscreenRequested = true;\nconst waitForUserSeconds = 45;\nconst videoTempDir = \"/v\";\n\nfunction selectorForTarget(target) {\n"
    ));
    assert!(script.ends_with("  process.exit(1);\n});\n"));
    assert!(!script.contains("{{") && script.contains(".replace(/\\s+/g, \" \")"));
}

#[test]
fn files_are_named_after_their_address() {
    assert_eq!(
        name_media("https://www.x.com/a?b", 12, 0),
        "x.comab-12.png"
    );
    assert_eq!(name_media("http://y.z", -3, 5), "y.z--3.webm");
    let name = media_file_name("https://www.x.com", 0);
    let millis = name
        .strip_prefix("x.com-")
        .and_then(|s| s.strip_suffix(".png"))
        .unwrap();
    assert!(millis.parse::<i64>().unwrap() > 1_600_000_000_000);
}

fn shown(path: &FilePath) -> (String, Vec<String>) {
    let base = match &path.base {
        PathBase::Given(p) => p.to_string_lossy().to_string(),
        PathBase::Text(t) => format!("text:{}", t),
    };
    (base, path.parts.clone())
}

#[test]
fn scripts_lie_in_the_data_directory() {
    let (base, parts) = shown(&script_path(FilePath::given(PathBuf::from("/data"))));
    assert_eq!(base, "/data");
    assert_eq!(parts[0], "runtime");
    assert!(parts[1].starts_with("playwright-shot-") && parts[1].ends_with(".cjs"));
    let (_, parts) = shown(&script_path_at(FilePath::given(PathBuf::from("/data")), 42));
    assert_eq!(parts, vec!["runtime", "playwright-shot-42.cjs"]);
}

#[test]
fn unfinished_videos_lie_beside_the_finished() {
    let (base, parts) = shown(&video_dir(FilePath::given(PathBuf::from("/out"))));
    assert_eq!((base.as_str(), parts), ("/out", vec![".playwright-video-temp".to_string()]));
}

#[test]
fn pictures_go_where_they_are_asked_for() {
    let workspace = || FilePath::given(PathBuf::from("/w"));
    let plan = blank_plan();
    let w = wording("截图");
    let desktop = || Some(PathBuf::from("/desk"));
    let dir = w.output_dir(Some(&plan), desktop(), None, workspace());
    assert_eq!(
        shown(&dir),
        ("/w".to_string(), vec![".ds-code".to_string(), "playwright-output".to_string()])
    );
    let dir = w.output_dir(Some(&plan), desktop(), Some(PathBuf::from("/shots")), workspace());
    assert_eq!(shown(&dir), ("/shots".to_string(), vec![]));
    let mut wanted = blank_plan();
    wanted.save_location = "DeskTop".to_string();
    let dir = w.output_dir(Some(&wanted), desktop(), None, workspace());
    assert_eq!(shown(&dir), ("/desk".to_string(), vec![]));
    let dir = w.output_dir(Some(&wanted), None, Some(PathBuf::from("/shots")), workspace());
    assert_eq!(shown(&dir), ("/shots".to_string(), vec![]));
    let dir = wording("保存到桌面").output_dir(None, desktop(), None, workspace());
    assert_eq!(shown(&dir), ("/desk".to_string(), vec![]));
}

#[test]
fn the_desktop_is_that_of_the_system() {
    let dir = screenshot_output_dir_for_request(
        "desktop",
        FilePath::given(PathBuf::from("/w")),
        None,
        Some(PathBuf::from("/shots")),
    );
    let expected = dirs::desktop_dir().unwrap_or(PathBuf::from("/shots"));
    assert_eq!(shown(&dir), (expected.to_string_lossy().to_string(), vec![]));
}

#[test]
fn output_places_are_told() {
    assert_eq!(
        tell_output("u", "/p"),
        "[tool] 已解析浏览器目标：u\r\n[tool] 输出位置：/p\r\n[tool] 正在启动 Playwright/Chrome...\r\n"
    );
}

#[test]
fn failed_steps_are_answered() {
    assert_eq!(
        fail_media(MediaStep::MakeDirectory, 0, "no"),
        ("创建截图输出目录失败：no".to_string(), -1)
    );
    assert_eq!(
        fail_media(MediaStep::Start, 0, "no"),
        ("启动 Playwright 截图失败：no".to_string(), -1)
    );
    assert_eq!(
        fail_media(MediaStep::Wait, 2, "no"),
        ("等待 Playwright 录制失败：no".to_string(), -1)
    );
}

#[test]
fn waiting_is_told_now_and_again() {
    let told: Vec<u64> = (1..=12).filter(|n| tell_waiting(*n, 0).is_some()).collect();
    assert_eq!(told, vec![1, 4, 8, 12]);
    assert_eq!(
        tell_waiting(1, 9).unwrap(),
        "[tool] Chrome 已启动，正在打开页面并等待加载...\r\n"
    );
    assert_eq!(
        tell_waiting(8, 9).unwrap(),
        "[tool] 页面仍在加载或录制处理中...\r\n"
    );
}

#[test]
fn ends_of_runs_are_answered() {
    let good = MediaExit {
        success: true,
        code: Some(0),
        written: true,
        printed: String::new(),
    };
    let (notice, output, code) = finish_media(&good, 0, "/o.png", "/d");
    assert_eq!(
        notice.as_deref(),
        Some("[tool] 页面截图完成，文件已写入：/o.png\r\n")
    );
    assert_eq!((output.as_str(), code), ("截图已保存：/o.png\n截图所在文件夹：/d", 0));
    let (_, output, _) = finish_media(&good, 3, "/o.webm", "/d");
    assert_eq!(output, "视频已保存：/o.webm\n视频所在文件夹：/d");
    let missing = MediaExit {
        success: true,
        code: Some(0),
        written: false,
        printed: "log".to_string(),
    };
    let (notice, output, code) = finish_media(&missing, 0, "/o", "/d");
    assert!(notice.is_none());
    assert_eq!((output.as_str(), code), ("截图失败，退出码：0。\nlog", 0));
    let killed = MediaExit {
        success: false,
        code: None,
        written: true,
        printed: String::new(),
    };
    let (_, output, code) = finish_media(&killed, 1, "/o", "/d");
    assert_eq!((output.as_str(), code), ("录制失败，退出码：-1。\n", -1));
}

#[test]
fn the_package_runner_is_looked_for_in_order() {
    match choose_npx(&vec![false, true, true]) {
        NpxChoice::Place(path) => assert_eq!(path, "C:\\Program Files (x86)\\nodejs\\npx.cmd"),
        _ => panic!("not at its place"),
    }
    match choose_npx(&vec![false, false, false, false, false, false, true, false]) {
        NpxChoice::InPath(dir, name) => assert_eq!((dir, name.as_str()), (1, "npx.exe")),
        _ => panic!("not in the path"),
    }
    assert!(matches!(choose_npx(&vec![false, false]), NpxChoice::Shell));
}

#[test]
fn the_browser_package_is_looked_for_in_order() {
    let above = || Some(PathBuf::from("/up"));
    assert!(find_playwright_node_modules(None, true, true).is_none());
    assert!(find_playwright_node_modules(above(), false, false).is_none());
    let fixed = find_playwright_node_modules(above(), true, true).unwrap();
    assert_eq!(
        shown(&fixed).0,
        "text:D:\\pro_sunner\\demo_vscode\\node_modules"
    );
    let beside = find_playwright_node_modules(above(), false, true).unwrap();
    assert_eq!(shown(&beside), ("/up".to_string(), vec!["node_modules".to_string()]));
}
