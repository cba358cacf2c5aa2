//! Pictures and videos as addresses that hold their content.

use vstd::prelude::*;
use base64::Engine;
use crate::number::{decimal, decimal_nat, law_decimal_reads_back, parse_nat, parsed_nat, u64_text};
use crate::search::{ends, starts};
use crate::text::{chars, lowercase, lowered, same};

verus! {

/// The sign for six bits.
pub open spec fn base64_sign(n: int) -> char {
    "ABCDEFGHIJKLMNOPQRSTUVWXYZabcdefghijklmnopqrstuvwxyz0123456789+/"@[n]
}

/// Bytes as text: of every three bytes, the last filled up with zeros, each six bits give
/// a sign, and `=` stands for signs of zeros alone.
pub open spec fn base64_text(bytes: Seq<u8>) -> Seq<char>
    decreases bytes.len(),
{
    if bytes.len() == 0 {
        seq![]
    } else {
        let second = if bytes.len() > 1 {
            bytes[1] as int
        } else {
            0
        };
        let third = if bytes.len() > 2 {
            bytes[2] as int
        } else {
            0
        };
        let bits = bytes[0] as int * 65536 + second * 256 + third;
        seq![
            base64_sign(bits / 262144),
            base64_sign(bits / 4096 % 64),
            if bytes.len() > 1 {
                base64_sign(bits / 64 % 64)
            } else {
                '='
            },
            if bytes.len() > 2 {
                base64_sign(bits % 64)
            } else {
                '='
            },
        ] + base64_text(
            if bytes.len() > 3 {
                bytes.skip(3)
            } else {
                seq![]
            },
        )
    }
}

/// The text for so many bytes fits in memory.
pub open spec fn encodable(len: nat) -> bool {
    (len + 2) / 3 * 4 <= isize::MAX
}

/// `Engine::encode` of `base64::engine::general_purpose::STANDARD`, whose alphabet is the
/// usual one and which fills up with `=`. It panics where the text does not fit in
/// memory.
#[verifier::external_body]
pub(crate) fn encode_base64(bytes: &[u8]) -> (r: String)
    requires
        encodable(bytes@.len()),
    ensures
        r@ == base64_text(bytes@),
{
    base64::engine::general_purpose::STANDARD.encode(bytes)
}

/// Tells whether the text for so many bytes fits in memory.
pub fn fits(len: usize) -> (r: bool)
    ensures
        r == encodable(len as nat),
{
    let most: usize = (isize::MAX as usize) / 4;
    let whole: usize = len / 3;
    let groups: usize = if len % 3 == 0 {
        whole
    } else {
        whole + 1
    };
    assert(groups == (len + 2) / 3);
    groups <= most
}

/// An address that holds a content of a kind.
pub open spec fn data_url(mime: Seq<char>, bytes: Seq<u8>) -> Seq<char> {
    "data:"@ + mime + ";base64,"@ + base64_text(bytes)
}

/// No two contents have the same text, and the length of a text is that which has to fit
/// in memory.
pub proof fn law_contents_are_told_apart(a: Seq<u8>, b: Seq<u8>)
    ensures
        base64_text(a).len() == (a.len() + 2) / 3 * 4,
        base64_text(a) == base64_text(b) ==> a == b,
    decreases a.len(),
{
    let s = base64_text(a);
    let t = base64_text(b);
    if a.len() == 0 {
        if b.len() > 0 {
            assert(t.len() >= 4);
        }
    } else {
        let x: Seq<u8> = if a.len() > 3 {
            a.skip(3)
        } else {
            seq![]
        };
        let y: Seq<u8> = if b.len() > 3 {
            b.skip(3)
        } else {
            seq![]
        };
        law_contents_are_told_apart(x, y);
        if s == t {
            assert(b.len() > 0);
            assert(base64_text(x) =~= s.skip(4));
            assert(base64_text(y) =~= t.skip(4));
            assert(x == y);
            lemma_first_group(a, b);
            assert(a.len() == b.len());
            assert forall|i: int| 0 <= i < a.len() implies a[i] == b[i] by {
                if i >= 3 {
                    assert(a[i] == x[i - 3] && b[i] == y[i - 3]);
                }
            }
            assert(a =~= b);
        }
    }
}

/// The number that up to three bytes make, the missing ones zero.
spec fn first_bits(bytes: Seq<u8>) -> int {
    bytes[0] as int * 65536 + (if bytes.len() > 1 {
        bytes[1] as int
    } else {
        0
    }) * 256 + (if bytes.len() > 2 {
        bytes[2] as int
    } else {
        0
    })
}

/// The first signs of a text.
proof fn lemma_first_signs(bytes: Seq<u8>)
    requires
        bytes.len() > 0,
    ensures
        base64_text(bytes).len() >= 4,
        base64_text(bytes)[0] == base64_sign(first_bits(bytes) / 262144),
        base64_text(bytes)[1] == base64_sign(first_bits(bytes) / 4096 % 64),
        base64_text(bytes)[2] == (if bytes.len() > 1 {
            base64_sign(first_bits(bytes) / 64 % 64)
        } else {
            '='
        }),
        base64_text(bytes)[3] == (if bytes.len() > 2 {
            base64_sign(first_bits(bytes) % 64)
        } else {
            '='
        }),
        0 <= first_bits(bytes) < 16777216,
        bytes.len() == 1 ==> first_bits(bytes) / 64 % 64 == 0,
        bytes.len() <= 2 ==> first_bits(bytes) % 64 == 0,
{
    lemma_filled_up(
        bytes[0] as int,
        if bytes.len() > 1 {
            bytes[1] as int
        } else {
            0
        },
    );
}

/// Texts that begin with the same four signs begin with the same bytes.
proof fn lemma_first_group(a: Seq<u8>, b: Seq<u8>)
    requires
        a.len() > 0,
        b.len() > 0,
        base64_text(a) == base64_text(b),
    ensures
        (a.len() > 1) == (b.len() > 1),
        (a.len() > 2) == (b.len() > 2),
        a[0] == b[0],
        a.len() > 1 ==> a[1] == b[1],
        a.len() > 2 ==> a[2] == b[2],
{
    let m = first_bits(a);
    let n = first_bits(b);
    assert({
        &&& (a.len() > 1) == (b.len() > 1)
        &&& (a.len() > 2) == (b.len() > 2)
        &&& m == n
    }) by {
        lemma_first_signs(a);
        lemma_first_signs(b);
        lemma_six_bits(m);
        lemma_six_bits(n);
        lemma_same_sign(m / 262144, n / 262144);
        lemma_same_sign(m / 4096 % 64, n / 4096 % 64);
        lemma_same_sign(m / 64 % 64, n / 64 % 64);
        lemma_same_sign(m % 64, n % 64);
    }
}

/// Signs that are the same stand for the same bits, and no sign is `=`.
proof fn lemma_same_sign(m: int, n: int)
    requires
        0 <= m < 64,
        0 <= n < 64,
    ensures
        base64_sign(m) == base64_sign(n) ==> m == n,
        base64_sign(m) != '=',
        base64_sign(n) != '=',
{
    lemma_sign(m);
    lemma_sign(n);
}

/// The code of a sign.
proof fn lemma_sign(n: int)
    requires
        0 <= n < 64,
    ensures
        base64_sign(n) as u32 == (if n < 26 {
            n + 65
        } else if n < 52 {
            n + 71
        } else if n < 62 {
            n - 4
        } else if n == 62 {
            43
        } else {
            47
        }),
{
    reveal_strlit("ABCDEFGHIJKLMNOPQRSTUVWXYZabcdefghijklmnopqrstuvwxyz0123456789+/");
}

/// A number of three bytes is made of its six bits.
proof fn lemma_six_bits(m: int)
    requires
        0 <= m < 16777216,
    ensures
        0 <= m / 262144 < 64,
        0 <= m / 4096 % 64 < 64,
        0 <= m / 64 % 64 < 64,
        0 <= m % 64 < 64,
        m == m / 262144 * 262144 + m / 4096 % 64 * 4096 + m / 64 % 64 * 64 + m % 64,
{
    let p = m / 64;
    let q = m / 4096;
    assert(q == p / 64);
    assert(m / 262144 == q / 64);
}

/// Bytes that are filled up with zeros end in zeros.
proof fn lemma_filled_up(first: int, second: int)
    requires
        0 <= first < 256,
        0 <= second < 256,
    ensures
        (first * 65536 + second * 256) % 64 == 0,
        second == 0 ==> (first * 65536 + second * 256) / 64 % 64 == 0,
{
    let k = first * 1024 + second * 4;
    let n = first * 65536 + second * 256;
    assert(n == k * 64);
    assert(n / 64 == k && n % 64 == 0) by {
        vstd::arithmetic::div_mod::lemma_fundamental_div_mod_converse(n, 64, k, 0);
    }
    if second == 0 {
        assert(k % 64 == 0) by {
            vstd::arithmetic::div_mod::lemma_fundamental_div_mod_converse(k, 64, first * 16, 0);
        }
    }
}

fn make_url(mime: &str, bytes: &[u8]) -> (r: String)
    requires
        encodable(bytes@.len()),
    ensures
        r@ == data_url(mime@, bytes@),
{
    let mut out = "data:".to_string();
    out.append(mime);
    out.append(";base64,");
    out.append(encode_base64(bytes).as_str());
    out
}

/// The kind of a picture by its extension in small letters.
pub open spec fn image_mime(ext: Seq<char>) -> Seq<char> {
    if ext == "jpg"@ || ext == "jpeg"@ {
        "image/jpeg"@
    } else if ext == "webp"@ {
        "image/webp"@
    } else if ext == "gif"@ {
        "image/gif"@
    } else if ext == "bmp"@ {
        "image/bmp"@
    } else {
        "image/png"@
    }
}

/// The kind of a video by its extension in small letters.
pub open spec fn media_mime(ext: Seq<char>) -> Seq<char> {
    if ext == "mp4"@ {
        "video/mp4"@
    } else if ext == "mov"@ {
        "video/quicktime"@
    } else if ext == "mkv"@ {
        "video/x-matroska"@
    } else {
        "video/webm"@
    }
}

/// The kind of a picture by its extension in small letters.
pub fn image_kind(ext: &str) -> (r: &'static str)
    ensures
        r@ == image_mime(ext@),
{
    if same(ext, "jpg") || same(ext, "jpeg") {
        "image/jpeg"
    } else if same(ext, "webp") {
        "image/webp"
    } else if same(ext, "gif") {
        "image/gif"
    } else if same(ext, "bmp") {
        "image/bmp"
    } else {
        "image/png"
    }
}

/// The kind of a video by its extension in small letters.
pub fn media_kind(ext: &str) -> (r: &'static str)
    ensures
        r@ == media_mime(ext@),
{
    if same(ext, "mp4") {
        "video/mp4"
    } else if same(ext, "mov") {
        "video/quicktime"
    } else if same(ext, "mkv") {
        "video/x-matroska"
    } else {
        "video/webm"
    }
}

/// The answer to a request for a file: nothing was there, or what came of reading it.
pub enum FileRead {
    Missing,
    Failed(String),
    Content(Vec<u8>),
}

/// The address of a picture, by the extension of its file.
pub fn read_image_data_url(file: &FileRead, extension: &str) -> (r: Result<String, String>)
    requires
        *file matches FileRead::Content(bytes) ==> encodable(bytes@.len()),
    ensures
        match (*file, r) {
            (FileRead::Missing, Err(e)) => e@ == "Image file does not exist"@,
            (FileRead::Failed(error), Err(e)) => e@ == error@,
            (FileRead::Content(bytes), Ok(url)) => url@ == data_url(
                image_mime(lowered(extension@)),
                bytes@,
            ),
            _ => false,
        },
{
    match file {
        FileRead::Missing => Err("Image file does not exist".to_string()),
        FileRead::Failed(error) => Err(error.clone()),
        FileRead::Content(bytes) => {
            let ext = lowercase(extension);
            Ok(make_url(image_kind(ext.as_str()), bytes.as_slice()))
        },
    }
}

/// The most bytes of a video that are shown: as configured, if that is a number, else
/// 64 MiB.
pub open spec fn preview_limit(configured: Option<Seq<char>>) -> nat {
    match configured {
        Some(text) => match parsed_nat(text, usize::MAX as nat) {
            Some(n) => n,
            None => 67108864,
        },
        None => 67108864,
    }
}

/// The most bytes of a video that are shown. `configured` is what the variable
/// `DS_CODE_MEDIA_PREVIEW_MAX_BYTES` holds.
pub fn media_preview_limit(configured: Option<&str>) -> (r: usize)
    ensures
        r == preview_limit(
            match configured {
                Some(text) => Some(text@),
                None => None,
            },
        ),
{
    match configured {
        Some(text) => match parse_nat(chars(text).as_slice(), usize::MAX as u64) {
            Some(n) => n as usize,
            None => 67108864,
        },
        None => 67108864,
    }
}

/// The address of a video, by the extension of its file, if it has no more bytes than
/// the limit.
pub fn read_media_data_url(file: &FileRead, limit: usize, extension: &str) -> (r: Result<
    String,
    String,
>)
    requires
        *file matches FileRead::Content(bytes) ==> bytes@.len() <= limit ==> encodable(bytes@.len()),
    ensures
        match (*file, r) {
            (FileRead::Missing, Err(e)) => e@ == "Media file does not exist"@,
            (FileRead::Failed(error), Err(e)) => e@ == error@,
            (FileRead::Content(bytes), Err(e)) => bytes@.len() > limit && e@
                == "Media file is too large for inline preview: "@ + decimal(bytes@.len() as int)
                + " bytes"@,
            (FileRead::Content(bytes), Ok(url)) => bytes@.len() <= limit && url@ == data_url(
                media_mime(lowered(extension@)),
                bytes@,
            ),
            _ => false,
        },
{
    match file {
        FileRead::Missing => Err("Media file does not exist".to_string()),
        FileRead::Failed(error) => Err(error.clone()),
        FileRead::Content(bytes) => {
            if bytes.len() > limit {
                let mut out = "Media file is too large for inline preview: ".to_string();
                out.append(u64_text(bytes.len() as u64).as_str());
                out.append(" bytes");
                return Err(out);
            }
            let ext = lowercase(extension);
            Ok(make_url(media_kind(ext.as_str()), bytes.as_slice()))
        },
    }
}

/// A picture is taken for what its ending says, and for a PNG where that says nothing; a
/// video likewise, and for a WebM.
pub proof fn law_kinds_go_by_the_ending(ext: Seq<char>)
    ensures
        ext == "jpg"@ || ext == "jpeg"@ ==> image_mime(ext) == "image/jpeg"@,
        ext == "webp"@ ==> image_mime(ext) == "image/webp"@,
        ext == "gif"@ ==> image_mime(ext) == "image/gif"@,
        ext == "bmp"@ ==> image_mime(ext) == "image/bmp"@,
        ext != "jpg"@ && ext != "jpeg"@ && ext != "webp"@ && ext != "gif"@ && ext != "bmp"@
            ==> image_mime(ext) == "image/png"@,
        ext == "mp4"@ ==> media_mime(ext) == "video/mp4"@,
        ext == "mov"@ ==> media_mime(ext) == "video/quicktime"@,
        ext == "mkv"@ ==> media_mime(ext) == "video/x-matroska"@,
        ext != "mp4"@ && ext != "mov"@ && ext != "mkv"@ ==> media_mime(ext) == "video/webm"@,
{
    reveal_strlit("jpg");
    reveal_strlit("jpeg");
    reveal_strlit("webp");
    reveal_strlit("gif");
    reveal_strlit("bmp");
    reveal_strlit("mp4");
    reveal_strlit("mov");
    reveal_strlit("mkv");
    assert("jpeg"@.len() == 4 && "webp"@.len() == 4 && "jpg"@.len() == 3 && "gif"@.len() == 3
        && "bmp"@.len() == 3);
    assert("jpeg"@[0] == 'j' && "webp"@[0] == 'w' && "jpg"@[0] == 'j' && "gif"@[0] == 'g'
        && "bmp"@[0] == 'b');
    assert("mp4"@[1] == 'p' && "mov"@[1] == 'o' && "mkv"@[1] == 'k');
}

/// The limit of a preview is the number that is configured; where there is none, or what is
/// configured is no number, it is sixty-four mebibytes.
pub proof fn law_limits_are_as_configured(n: nat, text: Seq<char>)
    ensures
        n <= usize::MAX ==> preview_limit(Some(decimal_nat(n))) == n,
        parsed_nat(text, usize::MAX as nat) is None ==> preview_limit(Some(text)) == 64 * 1024
            * 1024,
        preview_limit(None) == 64 * 1024 * 1024,
{
    if n <= usize::MAX {
        law_decimal_reads_back(n, usize::MAX as nat);
    }
}

/// A file is handed over with its kind before its contents, so that files of different
/// contents are told apart.
pub proof fn law_files_are_handed_over_with_their_kind(mime: Seq<char>, a: Seq<u8>, b: Seq<u8>)
    ensures
        starts(data_url(mime, a), "data:"@ + mime + ";base64,"@),
        ends(data_url(mime, a), base64_text(a)),
        data_url(mime, a) == data_url(mime, b) ==> a == b,
{
    let head = "data:"@ + mime + ";base64,"@;
    let whole = data_url(mime, a);
    assert(whole.subrange(0, head.len() as int) =~= head);
    assert(whole.subrange(whole.len() - base64_text(a).len(), whole.len() as int)
        =~= base64_text(a));
    if whole == data_url(mime, b) {
        let n = head.len() as int;
        assert(whole.skip(n) =~= base64_text(a));
        assert(data_url(mime, b).skip(n) =~= base64_text(b));
        law_contents_are_told_apart(a, b);
    }
}

/// A file can be handed over exactly where its text is no longer than a text can be.
pub proof fn law_files_fit_where_their_text_does(bytes: Seq<u8>)
    ensures
        encodable(bytes.len()) == (base64_text(bytes).len() <= isize::MAX),
{
    law_contents_are_told_apart(bytes, bytes);
}

} // verus!
