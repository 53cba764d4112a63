use laver_agent::design::{prototype_request, vector_request};
use laver_agent::design::{
    check_downloaded, extract_html, extract_svg, image_call, image_http_error, image_payload, image_prompt,
    new_design, prototype_result, truncate, vector_result, DesignConfig, ImagePayload,
};

#[test]
fn image_prompts() {
    assert_eq!(
        image_prompt("ip", "小狐狸", Some(" 可爱 ")),
        "设计一个品牌 IP 吉祥物：小狐狸。风格：可爱。要求：正面立绘、表情友善有亲和力、线条干净利落、造型独特易记忆，适合作为产品代言形象；背景使用纯色或简洁渐变，主体居中，不要出现文字。"
    );
    assert_eq!(
        image_prompt("icon", "记账", None),
        "设计一款应用图标：记账。要求：居中构图、简洁易识别、圆角方形轮廓，适合作为桌面应用图标；使用扁平化矢量风格，背景纯色或简洁渐变，不要出现文字。"
    );
}

#[test]
fn truncation_marks_cuts() {
    assert_eq!(truncate("abc", 3), "abc");
    assert_eq!(truncate("abcd", 3), "abc…");
    assert_eq!(image_http_error(500, "oops"), "图像接口返回 500: oops");
}

#[test]
fn svg_is_extracted() {
    assert_eq!(extract_svg("here: <svg a>x</svg> tail"), "<svg a>x</svg>");
    assert_eq!(extract_svg("```svg\n<svg>y</svg>\n```"), "<svg>y</svg>");
    assert_eq!(extract_svg("<svg unclosed"), "<svg unclosed");
    assert_eq!(extract_svg("nothing"), "");
    assert_eq!(vector_result("nothing").unwrap_err(), "模型没有返回有效的 SVG 代码");
    assert_eq!(vector_result("<svg/></svg>").unwrap(), "<svg/></svg>");
}

#[test]
fn html_is_extracted() {
    assert_eq!(extract_html("x <!DOCTYPE html><p>"), "<!DOCTYPE html><p>");
    assert_eq!(extract_html("a <html>b"), "<html>b");
    assert_eq!(
        extract_html("<body>hi"),
        "<!DOCTYPE html><html lang=\"zh-CN\"><head><meta charset=\"utf-8\"><title>原型预览</title></head><body>hi"
    );
    assert_eq!(extract_html("```html\n<html>z</html>\n```"), "<html>z</html>");
    assert_eq!(prototype_result("   ").unwrap_err(), "模型没有返回有效 HTML");
}

#[test]
fn image_calls_need_key_and_model() {
    let cfg = DesignConfig::default();
    assert_eq!(image_call(&cfg, None, "p", None).unwrap_err(), "尚未配置图像生成 API Key，请到「设置 → 设计」中填写");
    assert_eq!(
        image_call(&cfg, Some(String::new()), "p", None).unwrap_err(),
        "尚未配置图像生成 API Key，请到「设置 → 设计」中填写"
    );
    let blank = DesignConfig { base_url: "http://x/".into(), model: " ".into() };
    assert_eq!(image_call(&blank, Some("k".into()), "p", None).unwrap_err(), "图像模型未配置，请到「设置 → 设计」中填写");
    let c = image_call(&cfg, Some("k".into()), "画\"猫\"", Some("512x512")).unwrap();
    assert_eq!(c.url, "https://dashscope.aliyuncs.com/compatible-mode/v1/images/generations");
    assert_eq!(c.api_key, "k");
    assert_eq!(
        c.body,
        "{\"model\":\"wanx2.1-t2i-turbo\",\"prompt\":\"画\\\"猫\\\"\",\"n\":1,\"size\":\"512x512\",\"response_format\":\"b64_json\"}"
    );
}

#[test]
fn image_answers() {
    match image_payload(r#"{"data":[{"b64_json":"aGk="}]}"#).unwrap() {
        ImagePayload::Bytes(b) => assert_eq!(b, b"hi".to_vec()),
        _ => panic!("expected bytes"),
    }
    match image_payload(r#"{"data":[{"url":"http://img"}]}"#).unwrap() {
        ImagePayload::Url(u) => assert_eq!(u, "http://img"),
        _ => panic!("expected url"),
    }
    assert_eq!(image_payload(r#"{"data":[]}"#).err().unwrap(), "图像接口未返回数据");
    assert_eq!(image_payload(r#"{"data":[{"b64_json":""}]}"#).err().unwrap(), "图像接口返回了空数据");
    assert!(image_payload(r#"{"data":[{"b64_json":"!!"}]}"#).is_err());
    assert!(image_payload("not json").err().unwrap().starts_with("解析图像响应失败: "));
    assert_eq!(check_downloaded(&vec![]).unwrap_err(), "图像接口返回了空数据");
    assert!(check_downloaded(&vec![1]).is_ok());
}

#[test]
fn design_records() {
    let d = new_design("icon", "png", "p", "2025-01-01".into(), 12);
    assert!(d.id.starts_with("d-"));
    assert_eq!(d.id.len(), 34);
    assert_eq!(d.file, format!("{}.png", d.id));
    assert_eq!(d.bytes, 12);
}

#[test]
fn vector_and_prototype_queries() {
    let ip = vector_request("ip", "小狐狸", Some(" 可爱 "), "m");
    assert_eq!(
        ip.messages[0].text(),
        "请用 SVG 设计一个品牌 IP 吉祥物：小狐狸，风格为 可爱。\n\n输出要求：\n1. 输出单一 <svg>，使用 viewBox=\"0 0 512 512\"，内容完整自包含（不要外部图片/字体）。\n2. 造型可爱有亲和力：包含头部、身体、五官、四肢等基础形状，线条干净、比例协调。\n3. 使用少量渐变与高光让形象更立体，配色和谐（蓝绿/暖色系均可）。\n4. 背景为纯色或简洁渐变圆形底，主体居中。\n5. 直接输出 <svg>…</svg> 代码本身，不要代码围栏，不要任何说明文字。"
    );
    assert_eq!(ip.max_tokens, 8000);
    let icon = vector_request("icon", "记账", None, "m");
    assert!(icon.messages[0].text().starts_with("请用 SVG 设计一款应用图标：记账。\n\n输出要求："));
    let p = prototype_request("待办应用", None, "m");
    assert!(p.messages[0].text().starts_with("请为以下需求生成一个可直接在浏览器打开的高保真交互原型。\n\n平台/形态：桌面应用\n\n需求描述：\n待办应用"));
    assert_eq!(p.max_tokens, 12000);
}
