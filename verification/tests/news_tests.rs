use sleeper_bot::news::{decode_xml_entities, extract_rss_titles, format_headlines, urlencode};

#[test]
fn test_decode_xml_entities() {
    assert_eq!(decode_xml_entities("a &amp; b"), "a & b");
    assert_eq!(decode_xml_entities("&lt;tag&gt;"), "<tag>");
}

#[test]
fn test_urlenccode() {
    assert_eq!(urlencode("hello world"), "hello+world");
    assert_eq!(urlencode("a&b"), "a%26b");
}

#[test]
fn test_extract_rss_titles() {
    let xml = r#"<?xml version="1.0"?>
<rss><channel>
<title>Test Feed</title>
<item><title>Player X signs big deal with Team Y - ESPN</title><link>http://example.com</link></item>
<item><title>Player X injury update: expected back Week 10 - NFL.com</title><link>http://example.com</link></item>
</channel></rss>"#;
    let titles = extract_rss_titles(xml);
    assert_eq!(titles.len(), 2);
    assert!(titles[0].contains("signs big deal"));
    assert!(titles[1].contains("injury update"));
}

#[test]
fn test_urlencode_multibyte_and_unreserved() {
    assert_eq!(urlencode("é"), "%C3%A9");
    assert_eq!(urlencode("A-z_0.9~"), "A-z_0.9~");
    assert_eq!(urlencode(""), "");
}

#[test]
fn test_decode_xml_entities_all_kinds() {
    assert_eq!(
        decode_xml_entities("&quot;hi&quot; &apos;x&apos; &#39;y&#39; &#x27;z&#x27;"),
        "\"hi\" 'x' 'y' 'z'"
    );
    // Each entity is decoded once: `&amp;lt;` gives `&lt;`.
    assert_eq!(decode_xml_entities("&amp;lt;"), "&lt;");
    assert_eq!(decode_xml_entities("&amp;&lt;&"), "&<&");
}

#[test]
fn test_extract_rss_titles_keeps_at_most_six() {
    let mut xml = String::from("<rss><channel><title>Feed</title>");
    for i in 0..9 {
        xml.push_str(&format!("<item><title> Story {i} </title></item>"));
    }
    xml.push_str("</channel></rss>");
    let titles = extract_rss_titles(&xml);
    assert_eq!(titles.len(), 6);
    assert_eq!(titles[0], "Story 0");
    assert_eq!(titles[5], "Story 5");
}

#[test]
fn test_extract_rss_titles_skips_empty_and_unclosed() {
    let xml = "<item><title>   </title></item><item><title>Kept &amp; decoded</title></item><item><title>open";
    let titles = extract_rss_titles(xml);
    assert_eq!(titles, vec!["Kept & decoded".to_string()]);
}

#[test]
fn test_format_headlines_first_four() {
    let titles: Vec<String> = ["a", "b", "c", "d", "e"].iter().map(|s| s.to_string()).collect();
    assert_eq!(format_headlines(&titles), "1. a; 2. b; 3. c; 4. d");
}

#[test]
fn test_urlencode_decodes_back() {
    for s in ["Derrick Henry 2025", "a&b=c/d?é ü", "~ok_-.", "日本 + more"] {
        let e = urlencode(s);
        let chars: Vec<char> = e.chars().collect();
        let mut bytes: Vec<u8> = Vec::new();
        let mut i = 0;
        while i < chars.len() {
            match chars[i] {
                '%' => {
                    let hex: String = chars[i + 1..i + 3].iter().collect();
                    bytes.push(u8::from_str_radix(&hex, 16).unwrap());
                    i += 3;
                }
                '+' => {
                    bytes.push(b' ');
                    i += 1;
                }
                c => {
                    let mut buf = [0u8; 4];
                    bytes.extend_from_slice(c.encode_utf8(&mut buf).as_bytes());
                    i += 1;
                }
            }
        }
        assert_eq!(String::from_utf8(bytes).unwrap(), s);
    }
}
