use hubbub_html::builder::{ParserAction, TreeBuilder};
use hubbub_html::discovery::{CoordinatorError, OrderedRegistry, Phase, ScriptFetch};
use hubbub_html::driver::{DriverAction, LoadEvent, ParseDriver, ParseError};
use hubbub_html::element::{build_element_from_tag, ElementTypeId, HeadingLevel};
use hubbub_html::stream::{build_from_events, TagEvent};
use hubbub_html::tree::{Doctype, NodeData, TreeError};

fn attrs(pairs: &[(&str, &str)]) -> Vec<(String, String)> {
    pairs.iter().map(|(k, v)| (k.to_string(), v.to_string())).collect()
}

fn open(tag: &str, pairs: &[(&str, &str)]) -> TagEvent {
    TagEvent::Open(tag.to_string(), attrs(pairs))
}

fn element_type(b: &TreeBuilder, i: usize) -> ElementTypeId {
    match b.doc().data_of(i) {
        NodeData::Element(e) => e.type_id,
        _ => panic!("not an element"),
    }
}

#[test]
fn factory_maps_known_tags() {
    assert_eq!(build_element_from_tag("div").type_id, ElementTypeId::Div);
    assert_eq!(build_element_from_tag("a").type_id, ElementTypeId::Anchor);
    assert_eq!(build_element_from_tag("iframe").type_id, ElementTypeId::IFrame);
    assert_eq!(build_element_from_tag("img").type_id, ElementTypeId::Image);
    assert_eq!(build_element_from_tag("tbody").type_id, ElementTypeId::TableSection);
    assert_eq!(build_element_from_tag("h1").type_id, ElementTypeId::Heading(HeadingLevel::H1));
    assert_eq!(build_element_from_tag("h6").type_id, ElementTypeId::Heading(HeadingLevel::H6));
    assert_eq!(build_element_from_tag("section").type_id, ElementTypeId::Generic);
    let img = build_element_from_tag("img");
    assert!(img.source.is_none());
    assert!(img.subpage_id.is_none());
}

#[test]
fn factory_keeps_unknown_tag_name() {
    let e = build_element_from_tag("blink");
    assert_eq!(e.type_id, ElementTypeId::Unknown);
    assert_eq!(e.tag_name, "blink");
    let e = build_element_from_tag("");
    assert_eq!(e.type_id, ElementTypeId::Unknown);
    let e = build_element_from_tag("DIV");
    assert_eq!(e.type_id, ElementTypeId::Unknown);
    assert_eq!(e.tag_name, "DIV");
}

#[test]
fn later_attribute_wins() {
    let mut b = TreeBuilder::new(0);
    let n = b.create_element("div", attrs(&[("id", "x"), ("class", "c"), ("id", "y")]));
    match b.doc().data_of(n) {
        NodeData::Element(e) => {
            assert_eq!(e.get_attr("id").unwrap(), "y");
            assert_eq!(e.get_attr("class").unwrap(), "c");
            assert!(e.get_attr("title").is_none());
        }
        _ => panic!("not an element"),
    }
}

#[test]
fn nested_events_give_nested_tree() {
    let events = vec![
        open("body", &[]),
        open("div", &[]),
        TagEvent::Text("a".to_string()),
        TagEvent::Close,
        open("p", &[]),
        TagEvent::Close,
        TagEvent::Close,
    ];
    let b = build_from_events(events, 0);
    let d = b.doc();
    assert_eq!(d.node_count(), 5);
    assert_eq!(d.children_of(0), &vec![1]);
    assert_eq!(d.children_of(1), &vec![2, 4]);
    assert_eq!(d.children_of(2), &vec![3]);
    assert_eq!(d.parent_of(3), Some(2));
    assert_eq!(d.parent_of(4), Some(1));
    assert_eq!(d.parent_of(0), None);
    assert_eq!(element_type(&b, 4), ElementTypeId::Paragraph);
    match d.data_of(3) {
        NodeData::Text(t) => assert_eq!(t, "a"),
        _ => panic!("not text"),
    }
}

#[test]
fn extra_close_keeps_root_open() {
    let b = build_from_events(vec![TagEvent::Close, open("span", &[])], 0);
    assert_eq!(b.doc().parent_of(1), Some(0));
}

#[test]
fn subpage_ids_count_up_from_start() {
    let events = vec![
        open("iframe", &[("src", "a.html")]),
        TagEvent::Close,
        open("iframe", &[]),
        TagEvent::Close,
        open("iframe", &[("src", "b.html")]),
        TagEvent::Close,
    ];
    let mut b = build_from_events(events, 7);
    assert_eq!(b.next_subpage_id(), 9);
    let acts = b.take_actions();
    assert_eq!(acts.len(), 2);
    match (&acts[0], &acts[1]) {
        (ParserAction::RegisterFrame(a, 7), ParserAction::RegisterFrame(c, 8)) => {
            assert_eq!(a, "a.html");
            assert_eq!(c, "b.html");
        }
        _ => panic!("unexpected actions"),
    }
    match b.doc().data_of(3) {
        NodeData::Element(e) => {
            assert_eq!(e.subpage_id, Some(8));
            assert_eq!(e.source.as_deref(), Some("b.html"));
        }
        _ => panic!("not an element"),
    }
}

#[test]
fn link_image_and_script_requests() {
    let mut b = TreeBuilder::new(0);
    let l1 = b.create_element("link", attrs(&[("rel", "stylesheet"), ("href", "a.css")]));
    let l2 = b.create_element("link", attrs(&[("rel", "icon"), ("href", "i.png")]));
    let l3 = b.create_element("link", attrs(&[("rel", "stylesheet")]));
    let img = b.create_element("img", attrs(&[("src", "p.png")]));
    let img2 = b.create_element("img", attrs(&[]));
    let s1 = b.create_element("script", attrs(&[("src", "x.js")]));
    let s2 = b.create_element("script", attrs(&[]));
    for n in [l1, l2, l3, img, img2, s1, s2] {
        assert_eq!(b.append_child(0, n), Ok(n));
    }
    b.complete_script(s1);
    b.complete_script(s2);
    let acts = b.take_actions();
    assert_eq!(acts.len(), 3);
    assert!(matches!(&acts[0], ParserAction::LoadStylesheet(h) if h == "a.css"));
    assert!(matches!(&acts[1], ParserAction::PrefetchImage(h) if h == "p.png"));
    assert!(matches!(&acts[2], ParserAction::LoadScript(h) if h == "x.js"));
    assert!(b.take_actions().is_empty());
}

#[test]
fn style_text_is_joined_in_child_order() {
    let mut b = TreeBuilder::new(0);
    let style = b.create_element("style", Vec::new());
    let t1 = b.create_text("p { }".to_string());
    let c = b.create_comment("skip".to_string());
    let t2 = b.create_text(" a { }".to_string());
    assert_eq!(b.append_child(0, style), Ok(style));
    assert_eq!(b.append_child(style, t1), Ok(t1));
    assert_eq!(b.append_child(style, c), Ok(c));
    assert_eq!(b.append_child(style, t2), Ok(t2));
    b.complete_style(style);
    let acts = b.take_actions();
    assert_eq!(acts.len(), 1);
    assert!(matches!(&acts[0], ParserAction::InlineStylesheet(s) if s == "p { } a { }"));
}

#[test]
fn append_child_errors() {
    let mut b = TreeBuilder::new(0);
    let d = b.create_doctype(Doctype {
        name: "html".to_string(),
        public_id: String::new(),
        system_id: String::new(),
        force_quirks: false,
    });
    assert_eq!(b.append_child(0, 9), Err(TreeError::NoSuchNode));
    assert_eq!(b.append_child(9, d), Err(TreeError::NoSuchNode));
    assert_eq!(b.append_child(d, 0), Err(TreeError::AlreadyLinked));
    assert_eq!(b.append_child(d, d), Err(TreeError::AlreadyLinked));
    assert_eq!(b.append_child(0, d), Ok(d));
    assert_eq!(b.append_child(0, d), Err(TreeError::AlreadyLinked));
}

#[test]
fn scripts_leave_in_submission_order() {
    let mut reg: OrderedRegistry<Option<Vec<u8>>> = OrderedRegistry::new();
    let a = reg.submit().unwrap();
    let b = reg.submit().unwrap();
    let c = reg.submit().unwrap();
    assert_eq!((a, b, c), (0, 1, 2));
    assert_eq!(reg.complete(c, Some(b"C".to_vec())), Ok(()));
    assert_eq!(reg.complete(a, Some(b"A".to_vec())), Ok(()));
    reg.terminate();
    assert_eq!(reg.take_all(), None);
    assert_eq!(reg.complete(b, Some(b"B".to_vec())), Ok(()));
    assert_eq!(
        reg.take_all(),
        Some(vec![Some(b"A".to_vec()), Some(b"B".to_vec()), Some(b"C".to_vec())])
    );
    assert_eq!(reg.get_phase(), Phase::Done);
}

#[test]
fn failed_script_keeps_its_slot() {
    let mut reg: OrderedRegistry<Option<Vec<u8>>> = OrderedRegistry::new();
    let mut fa = ScriptFetch::new();
    fa.on_payload(b"al");
    fa.on_payload(b"pha");
    let mut fb = ScriptFetch::new();
    fb.on_payload(b"partial");
    let mut fc = ScriptFetch::new();
    fc.on_payload(b"gamma");
    let (a, b, c) = (reg.submit().unwrap(), reg.submit().unwrap(), reg.submit().unwrap());
    reg.complete(b, fb.finish(false)).unwrap();
    reg.complete(c, fc.finish(true)).unwrap();
    reg.complete(a, fa.finish(true)).unwrap();
    reg.terminate();
    assert_eq!(
        reg.take_all(),
        Some(vec![Some(b"alpha".to_vec()), None, Some(b"gamma".to_vec())])
    );
}

#[test]
fn stylesheets_wait_for_earlier_ones() {
    let mut reg: OrderedRegistry<String> = OrderedRegistry::new();
    let a = reg.submit().unwrap();
    let b = reg.submit().unwrap();
    reg.complete(b, "second".to_string()).unwrap();
    assert_eq!(reg.next_ready(), None);
    reg.terminate();
    assert_eq!(reg.submit(), Err(CoordinatorError::NotListening));
    assert_eq!(reg.next_ready(), None);
    reg.complete(a, "first".to_string()).unwrap();
    assert_eq!(reg.next_ready(), Some("first".to_string()));
    assert_eq!(reg.next_ready(), Some("second".to_string()));
    assert_eq!(reg.get_phase(), Phase::Draining);
    assert_eq!(reg.next_ready(), None);
    assert_eq!(reg.get_phase(), Phase::Done);
}

#[test]
fn registry_rejects_bad_completions() {
    let mut reg: OrderedRegistry<u32> = OrderedRegistry::new();
    assert_eq!(reg.complete(0, 1), Err(CoordinatorError::UnknownSlot));
    let s = reg.submit().unwrap();
    assert_eq!(reg.complete(s, 1), Ok(()));
    assert_eq!(reg.complete(s, 2), Err(CoordinatorError::AlreadyFilled));
    reg.terminate();
    assert_eq!(reg.next_ready(), Some(1));
    assert_eq!(reg.complete(s, 3), Err(CoordinatorError::UnknownSlot));
}

#[test]
fn load_failure_aborts_with_nothing() {
    let mut drv = ParseDriver::new();
    let mut b = TreeBuilder::new(0);
    let f = b.create_element("iframe", attrs(&[("src", "f.html")]));
    b.append_child(0, f).unwrap();
    assert!(matches!(drv.on_event(LoadEvent::Payload(vec![1, 2])), DriverAction::Feed(v) if v == vec![1, 2]));
    assert!(matches!(drv.on_event(LoadEvent::Done(false)), DriverAction::Abort));
    assert!(matches!(drv.on_event(LoadEvent::Done(true)), DriverAction::Ignore));
    assert!(matches!(drv.finish(b), Err(ParseError::LoadFailed)));
}

#[test]
fn load_success_hands_back_tree_and_requests() {
    let mut drv = ParseDriver::new();
    let mut b = TreeBuilder::new(3);
    let f = b.create_element("iframe", attrs(&[("src", "f.html")]));
    b.append_child(0, f).unwrap();
    assert!(matches!(drv.on_event(LoadEvent::Done(true)), DriverAction::TerminateCoordinators));
    let out = drv.finish(b).ok().unwrap();
    assert_eq!(out.document.children_of(0), &vec![1]);
    assert_eq!(out.actions.len(), 1);
    assert!(matches!(&out.actions[0], ParserAction::RegisterFrame(s, 3) if s == "f.html"));
}

#[test]
fn unfinished_load_is_incomplete() {
    let drv = ParseDriver::new();
    assert!(matches!(drv.finish(TreeBuilder::new(0)), Err(ParseError::Incomplete)));
}

#[test]
fn same_input_same_tree() {
    let make = || {
        vec![
            open("div", &[("id", "a")]),
            open("iframe", &[("src", "x")]),
            TagEvent::Close,
            TagEvent::Text("t".to_string()),
            TagEvent::Close,
        ]
    };
    let b1 = build_from_events(make(), 1);
    let b2 = build_from_events(make(), 1);
    assert_eq!(b1.doc().node_count(), b2.doc().node_count());
    for i in 0..b1.doc().node_count() {
        assert_eq!(b1.doc().parent_of(i), b2.doc().parent_of(i));
        assert_eq!(b1.doc().children_of(i), b2.doc().children_of(i));
    }
    assert_eq!(b1.next_subpage_id(), b2.next_subpage_id());
}
