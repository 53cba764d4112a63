//! The design studio: prompts for generated images, and the HTML or SVG
//! taken out of a model's answer.

use vstd::prelude::*;

use crate::llm::types::{ChatRequest, Message, ThinkingLevel};

use crate::text::{all_ws, append, chars_of, find_chars, first_match, is_blank, lemma_first_match, lines_of, matches_at, owned, seq_contains, seq_starts_with, str_contains, str_starts_with, string_of_range, take_chars_of, text_lines, trim, trim_str, views};

verus! {

/// What is recorded of a design beside its file.
#[derive(Debug, Clone)]
pub struct DesignMeta {
    pub id: String,
    /// `icon`, `ip` or `prototype`.
    pub kind: String,
    pub prompt: String,
    pub created_at: String,
    /// The file of the design, in the design folder.
    pub file: String,
    pub bytes: u64,
}

/// The image-generation settings.
#[derive(Debug, Clone)]
pub struct DesignConfig {
    pub base_url: String,
    pub model: String,
}

impl Default for DesignConfig {
    /// DashScope's OpenAI-compatible endpoint and its fast text-to-image model.
    fn default() -> (r: DesignConfig)
        ensures
            r.base_url@ == "https://dashscope.aliyuncs.com/compatible-mode/v1"@,
            r.model@ == "wanx2.1-t2i-turbo"@,
    {
        DesignConfig {
            base_url: owned("https://dashscope.aliyuncs.com/compatible-mode/v1"),
            model: owned("wanx2.1-t2i-turbo"),
        }
    }
}

/// The image prompt for a design of kind `kind` (`ip` for a mascot, any
/// other for an app icon), with the style when one is given.
pub open spec fn image_prompt_text(kind: Seq<char>, prompt: Seq<char>, style: Option<Seq<char>>) -> Seq<char> {
    let st = trim(
        match style {
            Some(s) => s,
            None => Seq::empty(),
        },
    );
    let style_part = if st.len() == 0 {
        Seq::empty()
    } else {
        "风格："@ + st + "。"@
    };
    if kind == "ip"@ {
        "设计一个品牌 IP 吉祥物："@ + prompt + "。"@ + style_part
            + "要求：正面立绘、表情友善有亲和力、线条干净利落、造型独特易记忆，适合作为产品代言形象；背景使用纯色或简洁渐变，主体居中，不要出现文字。"@
    } else {
        "设计一款应用图标："@ + prompt + "。"@ + style_part
            + "要求：居中构图、简洁易识别、圆角方形轮廓，适合作为桌面应用图标；使用扁平化矢量风格，背景纯色或简洁渐变，不要出现文字。"@
    }
}

/// The image prompt for a design.
pub fn image_prompt(kind: &str, prompt: &str, style: Option<&str>) -> (r: String)
    ensures
        r@ == image_prompt_text(
            kind@,
            prompt@,
            match style {
                Some(s) => Some(s@),
                None => None,
            },
        ),
{
    let st = match style {
        Some(s) => trim_str(s),
        None => String::new(),
    };
    proof {
        if style is None {
            assert(trim(Seq::<char>::empty()) =~= Seq::<char>::empty()) by {
                reveal_with_fuel(crate::text::trim_start, 1);
                reveal_with_fuel(crate::text::trim_end, 1);
            }
        }
    }
    let mut s = if crate::text::str_eq(kind, "ip") {
        owned("设计一个品牌 IP 吉祥物：")
    } else {
        owned("设计一款应用图标：")
    };
    append(&mut s, prompt);
    append(&mut s, "。");
    if st.unicode_len() > 0 {
        append(&mut s, "风格：");
        append(&mut s, st.as_str());
        append(&mut s, "。");
    }
    if crate::text::str_eq(kind, "ip") {
        append(&mut s, "要求：正面立绘、表情友善有亲和力、线条干净利落、造型独特易记忆，适合作为产品代言形象；背景使用纯色或简洁渐变，主体居中，不要出现文字。");
    } else {
        append(&mut s, "要求：居中构图、简洁易识别、圆角方形轮廓，适合作为桌面应用图标；使用扁平化矢量风格，背景纯色或简洁渐变，不要出现文字。");
    }
    s
}

/// A text cut to `max` characters, with `…` when cut.
pub open spec fn truncated(s: Seq<char>, max: nat) -> Seq<char> {
    if s.len() <= max {
        s
    } else {
        s.take(max as int) + "…"@
    }
}

/// A text cut to `max` characters, with `…` when cut.
pub fn truncate(s: &str, max: usize) -> (r: String)
    ensures
        r@ == truncated(s@, max as nat),
{
    if s.unicode_len() <= max {
        owned(s)
    } else {
        let mut t = take_chars_of(s, max);
        append(&mut t, "…");
        t
    }
}

/// The lines inside code fences (a line starting, once trimmed, with three
/// backticks opens or closes one), each followed by a line break; and
/// whether a fence is left open.
pub open spec fn fenced(lines: Seq<Seq<char>>) -> (Seq<char>, bool)
    decreases lines.len(),
{
    if lines.len() == 0 {
        (Seq::empty(), false)
    } else {
        let (out, open) = fenced(lines.drop_last());
        let l = lines.last();
        if seq_starts_with(trim(l), "```"@) {
            (out, !open)
        } else if open {
            (out + l + "\n"@, open)
        } else {
            (out, open)
        }
    }
}

/// The text of an answer with its code fences taken off: the trimmed answer,
/// or, when it holds fences with something inside, what is inside them.
#[verifier::opaque]
pub open spec fn unfenced(text: Seq<char>) -> Seq<char> {
    let t = trim(text);
    if seq_contains(t, "```"@) {
        let out = fenced(text_lines(t)).0;
        if all_ws(out) {
            t
        } else {
            out
        }
    } else {
        t
    }
}

fn unfence(text: &str) -> (r: String)
    ensures
        r@ == unfenced(text@),
{
    proof {
        reveal(unfenced);
    }
    let t = trim_str(text);
    if !str_contains(t.as_str(), "```") {
        return t;
    }
    let lines = lines_of(t.as_str());
    let ghost lv = views(lines@);
    let mut out = String::new();
    let mut in_code = false;
    let mut i: usize = 0;
    while i < lines.len()
        invariant
            i <= lines@.len(),
            lv == views(lines@),
            (out@, in_code) == fenced(lv.take(i as int)),
        decreases lines@.len() - i,
    {
        proof {
            assert(lv.take(i + 1).drop_last() =~= lv.take(i as int));
            assert(lv.take(i + 1).last() == lines@[i as int]@);
        }
        let line = lines[i].as_str();
        let l = trim_str(line);
        if str_starts_with(l.as_str(), "```") {
            in_code = !in_code;
        } else if in_code {
            append(&mut out, line);
            append(&mut out, "\n");
        }
        i += 1;
    }
    assert(lv.take(lines@.len() as int) =~= lv);
    if is_blank(out.as_str()) {
        t
    } else {
        out
    }
}

/// The text from the first occurrence of `pat` on, when it occurs.
pub open spec fn from_first(t: Seq<char>, pat: Seq<char>) -> Seq<char> {
    t.skip(first_match(t, pat))
}

fn find_in(t: &str, pat: &str) -> (r: Option<usize>)
    ensures
        match r {
            Some(i) => seq_contains(t@, pat@) && i == first_match(t@, pat@) && i <= t@.len() && matches_at(t@, pat@, i as int),
            None => !seq_contains(t@, pat@),
        },
{
    let tv = chars_of(t);
    let pv = chars_of(pat);
    match find_chars(&tv, &pv) {
        Some(i) => {
            proof {
                lemma_first_match(t@, pat@, i as int);
            }
            Some(i)
        },
        None => None,
    }
}

fn skip_text(t: &str, i: usize) -> (r: String)
    requires
        i <= t@.len(),
    ensures
        r@ == t@.skip(i as int),
{
    let v = chars_of(t);
    let r = string_of_range(&v, i, v.len());
    assert(r@ =~= t@.skip(i as int));
    r
}

/// The HTML page in a model's answer: from `<!DOCTYPE`, else from `<html`,
/// else a page wrapped around what follows `<body`, else the answer.
pub open spec fn html_of(text: Seq<char>) -> Seq<char> {
    let t = trim(unfenced(text));
    if seq_contains(t, "<!DOCTYPE"@) {
        from_first(t, "<!DOCTYPE"@)
    } else if seq_contains(t, "<html"@) {
        from_first(t, "<html"@)
    } else if seq_contains(t, "<body"@) {
        "<!DOCTYPE html><html lang=\"zh-CN\"><head><meta charset=\"utf-8\"><title>原型预览</title></head>"@
            + from_first(t, "<body"@)
    } else {
        t
    }
}

/// The HTML page in a model's answer.
#[verifier::spinoff_prover]
#[verifier::rlimit(80)]
pub fn extract_html(text: &str) -> (r: String)
    ensures
        r@ == html_of(text@),
{
    let u = unfence(text);
    let t = trim_str(u.as_str());
    match find_in(t.as_str(), "<!DOCTYPE") {
        Some(i) => return skip_text(t.as_str(), i),
        None => {},
    }
    match find_in(t.as_str(), "<html") {
        Some(i) => return skip_text(t.as_str(), i),
        None => {},
    }
    match find_in(t.as_str(), "<body") {
        Some(i) => {
            let mut p = owned("<!DOCTYPE html><html lang=\"zh-CN\"><head><meta charset=\"utf-8\"><title>原型预览</title></head>");
            let b = skip_text(t.as_str(), i);
            append(&mut p, b.as_str());
            return p;
        },
        None => {},
    }
    t
}

/// The SVG in a model's answer: from `<svg` up to the first `</svg>` after
/// it; failing the end tag, the whole answer when it holds `<svg`, else
/// nothing.
pub open spec fn svg_of(text: Seq<char>) -> Seq<char> {
    let t = unfenced(text);
    let start = if seq_contains(t, "<svg"@) {
        first_match(t, "<svg"@)
    } else {
        0
    };
    let body = t.skip(start);
    if seq_contains(body, "</svg>"@) {
        body.take(first_match(body, "</svg>"@) + "</svg>"@.len())
    } else if seq_contains(t, "<svg"@) {
        t
    } else {
        Seq::empty()
    }
}

/// The SVG in a model's answer.
#[verifier::spinoff_prover]
#[verifier::rlimit(80)]
pub fn extract_svg(text: &str) -> (r: String)
    ensures
        r@ == svg_of(text@),
{
    let t = unfence(text);
    let has_svg = find_in(t.as_str(), "<svg");
    let start = match has_svg {
        Some(i) => i,
        None => 0,
    };
    let body = skip_text(t.as_str(), start);
    match find_in(body.as_str(), "</svg>") {
        Some(end) => {
            let v = chars_of(body.as_str());
            let plen = "</svg>".unicode_len();
            let vl = v.len();
            assert(end + plen <= vl);
            let r = string_of_range(&v, 0, end + plen);
            assert(r@ =~= body@.take(end + "</svg>"@.len()));
            r
        },
        None => match has_svg {
            Some(_) => t,
            None => String::new(),
        },
    }
}

} // verus!

verus! {

// ---------------------------------------------------------------------------
// Generating designs
// ---------------------------------------------------------------------------

/// The default size of a generated image.
pub const DEFAULT_IMAGE_SIZE: &'static str = "1024x1024";

/// A checked image-generation call: where to post, with which key, what body.
#[derive(Debug)]
pub struct ImageCall {
    pub url: String,
    pub api_key: String,
    pub body: String,
}

/// The image-generation call for a prompt: refused without a key or without
/// a model; the base URL loses trailing `/`, the model is trimmed, the size
/// defaults to 1024x1024, one image is asked for as base64.
pub fn image_call(cfg: &DesignConfig, api_key: Option<String>, prompt: &str, size: Option<&str>) -> (r: Result<ImageCall, String>)
    ensures
        (match api_key {
            Some(k) => k@.len() == 0,
            None => true,
        }) ==> (r matches Err(m) && m@ == "尚未配置图像生成 API Key，请到「设置 → 设计」中填写"@),
        (api_key matches Some(k) && k@.len() > 0) && trim(cfg.model@).len() == 0 ==> (r matches Err(m) && m@
            == "图像模型未配置，请到「设置 → 设计」中填写"@),
        (api_key matches Some(k) && k@.len() > 0) && trim(cfg.model@).len() > 0 ==> (r matches Ok(c) && c.api_key@
            == api_key->0@ && c.url@ == crate::text::strip_trailing(cfg.base_url@, seq!['/']) + "/images/generations"@
            && c.body@ == "{\"model\":"@ + crate::json::spec_json_quote(trim(cfg.model@)) + ",\"prompt\":"@
            + crate::json::spec_json_quote(prompt@) + ",\"n\":1,\"size\":"@ + crate::json::spec_json_quote(
            match size {
                Some(s) => s@,
                None => DEFAULT_IMAGE_SIZE@,
            },
        ) + ",\"response_format\":\"b64_json\"}"@),
{
    let key = match api_key {
        Some(k) => if k.unicode_len() > 0 {
            k
        } else {
            return Err(owned("尚未配置图像生成 API Key，请到「设置 → 设计」中填写"));
        },
        None => return Err(owned("尚未配置图像生成 API Key，请到「设置 → 设计」中填写")),
    };
    let slash: Vec<char> = vec!['/'];
    assert(slash@ =~= seq!['/']);
    let mut url = crate::text::strip_trailing_of(cfg.base_url.as_str(), &slash);
    append(&mut url, "/images/generations");
    let model = trim_str(cfg.model.as_str());
    if model.unicode_len() == 0 {
        return Err(owned("图像模型未配置，请到「设置 → 设计」中填写"));
    }
    let size = match size {
        Some(s) => s,
        None => DEFAULT_IMAGE_SIZE,
    };
    let mut body = owned("{\"model\":");
    let q = crate::json::json_quote(model.as_str());
    append(&mut body, q.as_str());
    append(&mut body, ",\"prompt\":");
    let q = crate::json::json_quote(prompt);
    append(&mut body, q.as_str());
    append(&mut body, ",\"n\":1,\"size\":");
    let q = crate::json::json_quote(size);
    append(&mut body, q.as_str());
    append(&mut body, ",\"response_format\":\"b64_json\"}");
    Ok(ImageCall { url, api_key: key, body })
}

/// The error of a refused image-generation call.
pub fn image_http_error(status: u16, text: &str) -> (r: String)
    ensures
        r@ == "图像接口返回 "@ + crate::text::decimal(status as nat) + ": "@ + truncated(text@, 400),
{
    let mut s = owned("图像接口返回 ");
    let d = crate::text::decimal_string(status as u64);
    append(&mut s, d.as_str());
    append(&mut s, ": ");
    let t = truncate(text, 400);
    append(&mut s, t.as_str());
    s
}

/// What the `base64` crate's standard engine decodes a text to, or its error
/// text.
pub uninterp spec fn spec_base64_decode(s: Seq<char>) -> Result<Seq<u8>, Seq<char>>;

/// base64 `STANDARD.decode`.
#[verifier::external_body]
fn base64_decode(s: &str) -> (r: Result<Vec<u8>, String>)
    ensures
        match r {
            Ok(b) => spec_base64_decode(s@) == Ok::<Seq<u8>, Seq<char>>(b@),
            Err(e) => spec_base64_decode(s@) == Err::<Seq<u8>, Seq<char>>(e@),
        },
{
    match base64::Engine::decode(&base64::engine::general_purpose::STANDARD, s) {
        Ok(b) => Ok(b),
        Err(e) => Err(e.to_string()),
    }
}

/// The image in an image-generation answer.
#[derive(Debug)]
pub enum ImagePayload {
    /// The image itself.
    Bytes(Vec<u8>),
    /// Where to download it.
    Url(String),
}

/// What the first item of an answer's `data` holds: base64 bytes (decoded),
/// else a URL; refused when the answer is not JSON, when there is neither,
/// when decoding fails, or when the bytes are empty.
pub open spec fn payload_of(answer: Seq<char>) -> Result<Result<Seq<u8>, Seq<char>>, Seq<char>> {
    match crate::json::spec_json_parse_error(answer) {
        Some(e) => Err("解析图像响应失败: "@ + e),
        None => payload_of_json(answer),
    }
}

/// What the first item of a parsed answer's `data` holds.
pub open spec fn payload_of_json(answer: Seq<char>) -> Result<Result<Seq<u8>, Seq<char>>, Seq<char>> {
    let item = match crate::json::spec_json_get(answer, "data"@) {
        Some(d) => crate::json::spec_json_at(d, 0),
        None => None,
    };
    match item {
        None => Err("图像接口未返回数据"@),
        Some(it) => match crate::json::str_at_key(it, "b64_json"@) {
            Some(b) => match spec_base64_decode(b) {
                Ok(bytes) => if bytes.len() == 0 {
                    Err("图像接口返回了空数据"@)
                } else {
                    Ok(Ok(bytes))
                },
                Err(e) => Err("图像数据解码失败: "@ + e),
            },
            None => match crate::json::str_at_key(it, "url"@) {
                Some(u) => Ok(Err(u)),
                None => Err("图像接口返回格式无法识别"@),
            },
        },
    }
}

/// The image in an image-generation answer (JSON text).
pub fn image_payload(answer: &str) -> (r: Result<ImagePayload, String>)
    ensures
        match payload_of(answer@) {
            Ok(Ok(b)) => r matches Ok(ImagePayload::Bytes(x)) && x@ == b,
            Ok(Err(u)) => r matches Ok(ImagePayload::Url(x)) && x@ == u,
            Err(m) => r matches Err(x) && x@ == m,
        },
{
    match crate::json::json_parse_error(answer) {
        Some(e) => {
            let mut m = owned("解析图像响应失败: ");
            append(&mut m, e.as_str());
            return Err(m);
        },
        None => {},
    }
    let item = match crate::json::json_get(answer, "data") {
        Some(d) => crate::json::json_at(d.as_str(), 0),
        None => None,
    };
    let it = match item {
        Some(it) => it,
        None => return Err(owned("图像接口未返回数据")),
    };
    match crate::json::get_str(it.as_str(), "b64_json") {
        Some(b) => match base64_decode(b.as_str()) {
            Ok(bytes) => if bytes.len() == 0 {
                Err(owned("图像接口返回了空数据"))
            } else {
                Ok(ImagePayload::Bytes(bytes))
            },
            Err(e) => {
                let mut m = owned("图像数据解码失败: ");
                append(&mut m, e.as_str());
                Err(m)
            },
        },
        None => match crate::json::get_str(it.as_str(), "url") {
            Some(u) => Ok(ImagePayload::Url(u)),
            None => Err(owned("图像接口返回格式无法识别")),
        },
    }
}

/// A downloaded image must not be empty.
pub fn check_downloaded(bytes: &Vec<u8>) -> (r: Result<(), String>)
    ensures
        bytes@.len() == 0 ==> (r matches Err(m) && m@ == "图像接口返回了空数据"@),
        bytes@.len() > 0 ==> r is Ok,
{
    if bytes.len() == 0 {
        Err(owned("图像接口返回了空数据"))
    } else {
        Ok(())
    }
}

/// The record of a new design: id `d-` and 32 random characters, its file
/// `<id>.<ext>`.
pub fn new_design(kind: &str, ext: &str, prompt: &str, created_at: String, bytes: u64) -> (r: DesignMeta)
    ensures
        crate::text::seq_starts_with(r.id@, "d-"@),
        r.id@.len() == 34,
        r.file@ == r.id@ + "."@ + ext@,
        r.kind@ == kind@,
        r.prompt@ == prompt@,
        r.created_at@ == created_at@,
        r.bytes == bytes,
{
    let mut id = owned("d-");
    let h = crate::ids::random_hex_id();
    append(&mut id, h.as_str());
    proof {
        reveal_strlit("d-");
        assert(id@.subrange(0, 2) =~= "d-"@);
    }
    let mut file = id.clone();
    append(&mut file, ".");
    append(&mut file, ext);
    DesignMeta { id, kind: owned(kind), prompt: owned(prompt), created_at, file, bytes }
}

} // verus!

verus! {

/// The instructions of a vector-design query.
pub const VECTOR_SYSTEM: &'static str = "你是一名资深矢量设计师，擅长用 SVG 创作应用图标与品牌 IP 形象。你只输出有效的 SVG 代码，不输出任何解释、Markdown 围栏或其他文字。";

/// The instructions of a prototype query.
pub const PROTOTYPE_SYSTEM: &'static str = "你是一名资深产品设计师与前端工程师，擅长把产品需求转成可直接运行的高保真交互原型。你只输出完整、自包含的 HTML 代码，不输出任何解释。";

/// The request text of a vector design of kind `kind` (`ip` for a mascot,
/// any other for an app icon), with the style when one is given.
pub open spec fn vector_prompt(kind: Seq<char>, prompt: Seq<char>, style: Option<Seq<char>>) -> Seq<char> {
    let st = trim(
        match style {
            Some(s) => s,
            None => Seq::empty(),
        },
    );
    let style_part = if st.len() == 0 {
        Seq::empty()
    } else {
        "，风格为 "@ + st
    };
    if kind == "ip"@ {
        "请用 SVG 设计一个品牌 IP 吉祥物："@ + prompt + style_part + "。\n\n输出要求：\n1. 输出单一 <svg>，使用 viewBox=\"0 0 512 512\"，内容完整自包含（不要外部图片/字体）。\n2. 造型可爱有亲和力：包含头部、身体、五官、四肢等基础形状，线条干净、比例协调。\n3. 使用少量渐变与高光让形象更立体，配色和谐（蓝绿/暖色系均可）。\n4. 背景为纯色或简洁渐变圆形底，主体居中。\n5. 直接输出 <svg>…</svg> 代码本身，不要代码围栏，不要任何说明文字。"@
    } else {
        "请用 SVG 设计一款应用图标："@ + prompt + style_part + "。\n\n输出要求：\n1. 输出单一 <svg>，使用 viewBox=\"0 0 512 512\"，内容完整自包含（不要外部图片/字体）。\n2. 包含圆角方形或圆形背景（纯色或简洁渐变）与居中主体图形，2~5 层即可。\n3. 简洁易识别、扁平矢量风格，图标内不要出现文字。\n4. 配色和谐，适合作为桌面应用图标。\n5. 直接输出 <svg>…</svg> 代码本身，不要代码围栏，不要任何说明文字。"@
    }
}

/// The query for a vector design.
pub fn vector_request(kind: &str, prompt: &str, style: Option<&str>, model: &str) -> (r: ChatRequest)
    ensures
        r.model@ == model@,
        r.system@ == VECTOR_SYSTEM@,
        r.messages@.len() == 1,
        r.messages@[0]@ == Message::user_text_spec(
            vector_prompt(
                kind@,
                prompt@,
                match style {
                    Some(s) => Some(s@),
                    None => None,
                },
            ),
        ),
        r.tools@.len() == 0,
        r.max_tokens == 8000,
        r.thinking == ThinkingLevel::Off,
{
    let st = match style {
        Some(s) => trim_str(s),
        None => String::new(),
    };
    proof {
        if style is None {
            assert(trim(Seq::<char>::empty()) =~= Seq::<char>::empty()) by {
                reveal_with_fuel(crate::text::trim_start, 1);
                reveal_with_fuel(crate::text::trim_end, 1);
            }
        }
    }
    let ip = crate::text::str_eq(kind, "ip");
    let mut u = if ip {
        owned("请用 SVG 设计一个品牌 IP 吉祥物：")
    } else {
        owned("请用 SVG 设计一款应用图标：")
    };
    append(&mut u, prompt);
    if st.unicode_len() > 0 {
        append(&mut u, "，风格为 ");
        append(&mut u, st.as_str());
    }
    if ip {
        append(&mut u, "。\n\n输出要求：\n1. 输出单一 <svg>，使用 viewBox=\"0 0 512 512\"，内容完整自包含（不要外部图片/字体）。\n2. 造型可爱有亲和力：包含头部、身体、五官、四肢等基础形状，线条干净、比例协调。\n3. 使用少量渐变与高光让形象更立体，配色和谐（蓝绿/暖色系均可）。\n4. 背景为纯色或简洁渐变圆形底，主体居中。\n5. 直接输出 <svg>…</svg> 代码本身，不要代码围栏，不要任何说明文字。");
    } else {
        append(&mut u, "。\n\n输出要求：\n1. 输出单一 <svg>，使用 viewBox=\"0 0 512 512\"，内容完整自包含（不要外部图片/字体）。\n2. 包含圆角方形或圆形背景（纯色或简洁渐变）与居中主体图形，2~5 层即可。\n3. 简洁易识别、扁平矢量风格，图标内不要出现文字。\n4. 配色和谐，适合作为桌面应用图标。\n5. 直接输出 <svg>…</svg> 代码本身，不要代码围栏，不要任何说明文字。");
    }
    let ghost sv = match style {
        Some(s) => Some(s@),
        None => None,
    };
    assert(u@ == vector_prompt(kind@, prompt@, sv));
    let msg = Message::user_text(u);
    ChatRequest {
        model: owned(model),
        system: owned(VECTOR_SYSTEM),
        messages: vec![msg],
        tools: Vec::new(),
        max_tokens: 8000,
        thinking: ThinkingLevel::Off,
    }
}

/// The request text of a prototype for a platform (`桌面应用` by default).
pub open spec fn prototype_prompt(prompt: Seq<char>, platform: Option<Seq<char>>) -> Seq<char> {
    "请为以下需求生成一个可直接在浏览器打开的高保真交互原型。\n\n平台/形态："@ + trim(
        match platform {
            Some(p) => p,
            None => "桌面应用"@,
        },
    ) + "\n\n需求描述：\n"@ + prompt + "\n\n输出要求：\n1. 输出一份完整的 HTML 文档（以 <!DOCTYPE html> 开头），所有 CSS 与 JavaScript 全部内联在同一个文件中。\n2. 界面文本使用中文，视觉风格现代简洁（浅色主题，蓝绿主色调），合理使用卡片、圆角与留白。\n3. 包含主要页面/视图结构、导航、表单、列表等核心交互元素；用内联 JS 实现切换、弹窗、输入反馈等基础交互。\n4. 适配常见桌面窗口尺寸（1280x800），不要依赖外部网络资源。\n5. 直接输出 HTML 代码本身，不要使用代码围栏（不要用 ``` 包裹），不要附加任何说明文字。"@
}

/// The query for a prototype.
pub fn prototype_request(prompt: &str, platform: Option<&str>, model: &str) -> (r: ChatRequest)
    ensures
        r.model@ == model@,
        r.system@ == PROTOTYPE_SYSTEM@,
        r.messages@.len() == 1,
        r.messages@[0]@ == Message::user_text_spec(
            prototype_prompt(
                prompt@,
                match platform {
                    Some(p) => Some(p@),
                    None => None,
                },
            ),
        ),
        r.tools@.len() == 0,
        r.max_tokens == 12000,
        r.thinking == ThinkingLevel::Off,
{
    let p = match platform {
        Some(p) => trim_str(p),
        None => trim_str("桌面应用"),
    };
    let mut u = owned("请为以下需求生成一个可直接在浏览器打开的高保真交互原型。\n\n平台/形态：");
    append(&mut u, p.as_str());
    append(&mut u, "\n\n需求描述：\n");
    append(&mut u, prompt);
    append(&mut u, "\n\n输出要求：\n1. 输出一份完整的 HTML 文档（以 <!DOCTYPE html> 开头），所有 CSS 与 JavaScript 全部内联在同一个文件中。\n2. 界面文本使用中文，视觉风格现代简洁（浅色主题，蓝绿主色调），合理使用卡片、圆角与留白。\n3. 包含主要页面/视图结构、导航、表单、列表等核心交互元素；用内联 JS 实现切换、弹窗、输入反馈等基础交互。\n4. 适配常见桌面窗口尺寸（1280x800），不要依赖外部网络资源。\n5. 直接输出 HTML 代码本身，不要使用代码围栏（不要用 ``` 包裹），不要附加任何说明文字。");
    ChatRequest {
        model: owned(model),
        system: owned(PROTOTYPE_SYSTEM),
        messages: vec![Message::user_text(u)],
        tools: Vec::new(),
        max_tokens: 12000,
        thinking: ThinkingLevel::Off,
    }
}

/// The SVG of a vector-design answer, or the refusal of an answer without
/// one.
pub fn vector_result(text: &str) -> (r: Result<String, String>)
    ensures
        crate::text::all_ws(svg_of(text@)) ==> (r matches Err(m) && m@ == "模型没有返回有效的 SVG 代码"@),
        !crate::text::all_ws(svg_of(text@)) ==> (r matches Ok(s) && s@ == svg_of(text@)),
{
    let svg = extract_svg(text);
    if is_blank(svg.as_str()) {
        Err(owned("模型没有返回有效的 SVG 代码"))
    } else {
        Ok(svg)
    }
}

/// The HTML of a prototype answer, or the refusal of an answer without one.
pub fn prototype_result(text: &str) -> (r: Result<String, String>)
    ensures
        crate::text::all_ws(html_of(text@)) ==> (r matches Err(m) && m@ == "模型没有返回有效 HTML"@),
        !crate::text::all_ws(html_of(text@)) ==> (r matches Ok(s) && s@ == html_of(text@)),
{
    let html = extract_html(text);
    if is_blank(html.as_str()) {
        Err(owned("模型没有返回有效 HTML"))
    } else {
        Ok(html)
    }
}

} // verus!
