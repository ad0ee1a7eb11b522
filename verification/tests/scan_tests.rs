use aerial::dom::{get_scripts, page_scripts, DomNode, NodeKind};
use aerial::pattern::Pattern;
use aerial::snitch::{snitch, ReadEvent, SnitchStep};

#[test]
fn test_snitch() {
    let input = "test\nthis\ncool\nthing";
    let re = Pattern::compile(r"thi[sng]+").unwrap();
    let mut scanner = snitch(re);
    let mut words = vec![];
    let mut events = vec![ReadEvent::Data(input.as_bytes().to_vec()), ReadEvent::Data(vec![])];
    events.reverse();
    while let Some(event) = events.pop() {
        match scanner.step(event) {
            SnitchStep::Found(word) => {
                let groups = word.snitch();
                words.push(groups[0].as_ref().unwrap().text.clone());
            }
            SnitchStep::Pending => {}
            SnitchStep::Finished => break,
            SnitchStep::Overrun => panic!("overrun"),
        }
    }
    assert_eq!(words, vec!["this".to_string()]);
}

#[test]
fn snitch_accumulates_chunks_and_drops_matched_prefix() {
    let mut scanner = snitch(Pattern::compile(r"In:(\d+)\]").unwrap());
    assert!(matches!(scanner.step(ReadEvent::Data(b"xx In:1".to_vec())), SnitchStep::Pending));
    match scanner.step(ReadEvent::Data(b"2] tail".to_vec())) {
        SnitchStep::Found(r) => {
            assert_eq!(r.value(), "xx In:12] tail");
            assert_eq!(r.snitch()[1].as_ref().unwrap().text, "12");
        }
        _ => panic!("expected a match"),
    }
    assert!(matches!(scanner.step(ReadEvent::Interrupted), SnitchStep::Pending));
    match scanner.step(ReadEvent::Data(b" In:3]".to_vec())) {
        SnitchStep::Found(r) => assert_eq!(r.value(), " tail In:3]"),
        _ => panic!("expected a match"),
    }
    assert!(matches!(scanner.step(ReadEvent::Failed), SnitchStep::Finished));
    assert!(matches!(scanner.step(ReadEvent::Data(vec![])), SnitchStep::Finished));
}

#[test]
fn snitch_overrun_on_invalid_utf8() {
    let mut scanner = snitch(Pattern::compile("b").unwrap());
    assert!(matches!(scanner.step(ReadEvent::Data(vec![0xff, b'a', b'b'])), SnitchStep::Overrun));
    let mut scanner = snitch(Pattern::compile("\u{fffd}").unwrap());
    match scanner.step(ReadEvent::Data(vec![0xff, b'a', b'b', b'c'])) {
        SnitchStep::Found(r) => assert_eq!(r.value(), "\u{fffd}abc"),
        _ => panic!("expected a match"),
    }
}

#[test]
fn get_scripts_collects_script_texts_in_order() {
    let html = "<html><head><script>var a = 1;</script><title>t</title></head><body><p>x</p><script>second()</script><script></script></body></html>";
    assert_eq!(page_scripts(html), vec!["var a = 1;".to_string(), "second()".to_string()]);
}

#[test]
fn get_scripts_on_built_nodes() {
    let nodes = vec![
        DomNode { parent: None, kind: NodeKind::Other },
        DomNode { parent: Some(0), kind: NodeKind::Element("script".to_string()) },
        DomNode { parent: Some(1), kind: NodeKind::Text("one".to_string()) },
        DomNode { parent: Some(0), kind: NodeKind::Text("outside".to_string()) },
        DomNode { parent: Some(1), kind: NodeKind::Text("two".to_string()) },
        DomNode { parent: Some(0), kind: NodeKind::Element("SCRIPT".to_string()) },
        DomNode { parent: Some(5), kind: NodeKind::Text("other".to_string()) },
    ];
    assert_eq!(get_scripts(&nodes), vec!["one".to_string(), "two".to_string()]);
}

#[test]
fn pattern_compiles_and_reports_groups() {
    assert!(Pattern::compile("foo(bar").is_err());
    let mut scanner = snitch(Pattern::compile(r"(\d+)-(x)?").unwrap());
    match scanner.step(ReadEvent::Data(b"ab 12- cd".to_vec())) {
        SnitchStep::Found(r) => {
            let caps = r.snitch();
            assert_eq!(caps.len(), 3);
            let whole = caps[0].as_ref().unwrap();
            assert_eq!((whole.start, whole.end, whole.text.as_str()), (3, 6, "12-"));
            assert_eq!(caps[1].as_ref().unwrap().text, "12");
            assert!(caps[2].is_none());
        }
        _ => panic!("expected a match"),
    }
}
