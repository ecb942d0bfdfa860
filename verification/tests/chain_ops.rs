use frameflow::attrs::{AttrValue, AttributeMap};
use frameflow::chain::{FrameFilter, FramePipeline, NoopFilter};
use frameflow::envelope::Payload;
use frameflow::media::MediaKind;

fn noop() -> NoopFilter {
    NoopFilter { kind: MediaKind::Video }
}

fn video_chain() -> FramePipeline<NoopFilter> {
    FramePipeline::new(0, None, MediaKind::Video)
}

fn names(p: &FramePipeline<NoopFilter>) -> Vec<String> {
    p.names_head_to_tail()
}

#[test]
fn add_first_on_empty_makes_head_equal_tail() {
    let mut p = video_chain();
    assert_eq!(p.head, None);
    assert_eq!(p.tail, None);
    p.add_first("only", noop());
    assert!(p.head.is_some());
    assert_eq!(p.head, p.tail);
    let first = p.first_context().expect("head node");
    assert_eq!(first.name(), "only");
    let last = p.last_context().expect("tail node");
    assert_eq!(last.name(), "only");
}

#[test]
fn add_last_on_empty_makes_head_equal_tail() {
    let mut p = video_chain();
    p.add_last("only", noop());
    assert!(p.head.is_some());
    assert_eq!(p.head, p.tail);
    assert_eq!(p.first_context().unwrap().name(), "only");
}

#[test]
fn add_first_prepends_and_add_last_appends() {
    let mut p = video_chain();
    p.add_last("b", noop());
    p.add_first("a", noop());
    p.add_last("c", noop());
    assert_eq!(names(&p), vec!["a", "b", "c"]);
}

#[test]
fn traversals_are_reverse_of_each_other() {
    let mut p = video_chain();
    p.add_last("a", noop());
    p.add_last("b", noop());
    p.add_before("b", "x", noop());
    p.add_after("a", "y", noop());
    p.add_first("z", noop());
    p.remove("a");
    assert!(names(&p).len() > 0);
    let forward = p.names_head_to_tail();
    let mut backward = p.names_tail_to_head();
    backward.reverse();
    assert_eq!(forward, backward);
}

#[test]
fn traversals_mirror_after_every_edit_shape() {
    let mut p = video_chain();
    for (i, name) in ["m", "n", "o", "p", "q"].iter().enumerate() {
        if i % 2 == 0 {
            p.add_first(name, noop());
        } else {
            p.add_last(name, noop());
        }
        let forward = p.names_head_to_tail();
        let mut backward = p.names_tail_to_head();
        backward.reverse();
        assert_eq!(forward, backward);
    }
}

#[test]
fn add_before_head_updates_head() {
    let mut p = video_chain();
    p.add_last("a", noop());
    p.add_last("b", noop());
    assert!(p.add_before("a", "front", noop()));
    assert_eq!(names(&p), vec!["front", "a", "b"]);
    assert_eq!(p.first_context().unwrap().name(), "front");
}

#[test]
fn add_before_middle_links_both_sides() {
    let mut p = video_chain();
    p.add_last("a", noop());
    p.add_last("b", noop());
    assert!(p.add_before("b", "mid", noop()));
    assert_eq!(names(&p), vec!["a", "mid", "b"]);
    let mut backward = p.names_tail_to_head();
    backward.reverse();
    assert_eq!(backward, vec!["a", "mid", "b"]);
}

#[test]
fn add_after_tail_updates_tail() {
    let mut p = video_chain();
    p.add_last("a", noop());
    p.add_last("b", noop());
    assert!(p.add_after("b", "end", noop()));
    assert_eq!(names(&p), vec!["a", "b", "end"]);
    assert_eq!(p.last_context().unwrap().name(), "end");
}

#[test]
fn add_before_unknown_anchor_changes_nothing() {
    let mut p = video_chain();
    p.add_last("a", noop());
    assert!(!p.add_before("missing", "x", noop()));
    assert!(!p.add_after("missing", "x", noop()));
    assert_eq!(names(&p), vec!["a"]);
}

#[test]
fn remove_middle_keeps_links() {
    let mut p = video_chain();
    p.add_last("a", noop());
    p.add_last("b", noop());
    p.add_last("c", noop());
    let removed = p.remove("b");
    assert!(removed.is_some());
    assert_eq!(names(&p), vec!["a", "c"]);
    let mut backward = p.names_tail_to_head();
    backward.reverse();
    assert_eq!(backward, vec!["a", "c"]);
}

#[test]
fn remove_sole_node_leaves_empty_chain() {
    let mut p = video_chain();
    p.add_last("only", noop());
    let removed = p.remove("only");
    assert!(removed.is_some());
    assert_eq!(p.head, None);
    assert_eq!(p.tail, None);
    assert!(names(&p).is_empty());
    assert!(p.first_context().is_none());
    assert!(p.last_context().is_none());
}

#[test]
fn remove_unknown_returns_nothing() {
    let mut p = video_chain();
    p.add_last("a", noop());
    assert!(p.remove("zzz").is_none());
    assert_eq!(names(&p), vec!["a"]);
}

#[test]
fn replace_renames_in_place() {
    let mut p = video_chain();
    p.add_last("a", noop());
    p.add_last("b", noop());
    p.add_last("c", noop());
    let old = p.replace("b", "b2", noop());
    assert!(old.is_some());
    assert_eq!(names(&p), vec!["a", "b2", "c"]);
}

#[test]
fn replace_unknown_returns_nothing() {
    let mut p = video_chain();
    p.add_last("a", noop());
    assert!(p.replace("b", "b2", noop()).is_none());
    assert_eq!(names(&p), vec!["a"]);
}

#[test]
fn find_returns_stable_index() {
    let mut p = video_chain();
    p.add_last("a", noop());
    p.add_last("b", noop());
    let idx = p.find("b").expect("b exists");
    let ctx = p.context_at(idx).expect("live node");
    assert_eq!(ctx.name(), "b");
    // the arena index survives edits elsewhere in the chain
    p.add_first("front", noop());
    p.remove("a");
    let ctx = p.context_at(idx).expect("still live");
    assert_eq!(ctx.name(), "b");
    assert!(p.find("nope").is_none());
}

#[test]
fn noop_filter_passes_frames_through() {
    let mut f = noop();
    let mut attrs = AttributeMap::new();
    let name = String::from("noop");
    assert_eq!(f.media_type(), MediaKind::Video);
    assert!(f.init(&name, &mut attrs).is_ok());
    let out = f
        .filter_frame(Payload { data: vec![1, 2, 3], pts: 7 }, &name, &mut attrs)
        .expect("no fault");
    let out = out.expect("unit passes through");
    assert_eq!(out.data, vec![1, 2, 3]);
    assert_eq!(out.pts, 7);
    let drained = f.request_frame(&name, &mut attrs).expect("no fault");
    assert!(drained.is_none());
    f.uninit(&name, &mut attrs);
}

#[test]
fn context_mut_edits_the_stage_in_place() {
    let mut p = video_chain();
    p.add_last("a", noop());
    p.add_last("b", noop());
    {
        let head = p.first_context_mut().expect("head node");
        assert_eq!(head.name, "a");
        head.filter.kind = MediaKind::Video;
    }
    {
        let tail = p.last_context_mut().expect("tail node");
        assert_eq!(tail.name, "b");
    }
    assert_eq!(names(&p), vec!["a", "b"]);
    let mut empty = video_chain();
    assert!(empty.first_context_mut().is_none());
    assert!(empty.last_context_mut().is_none());
}

#[test]
fn chain_attributes_set_get_remove() {
    let mut p = video_chain();
    p.add_last("a", noop());
    p.set_attribute(String::from("geometry"), AttrValue::Size { width: 320, height: 240 });
    match p.get_attribute(&String::from("geometry")) {
        Some(AttrValue::Size { width, height }) => {
            assert_eq!(*width, 320);
            assert_eq!(*height, 240);
        }
        other => panic!("unexpected value: {:?}", other),
    }
    match p.remove_attribute(&String::from("geometry")) {
        Some(AttrValue::Size { width: 320, height: 240 }) => {}
        other => panic!("unexpected value: {:?}", other),
    }
    assert!(p.get_attribute(&String::from("geometry")).is_none());
    assert_eq!(names(&p), vec!["a"]);
}

#[test]
fn attribute_map_set_get_remove() {
    let mut m = AttributeMap::new();
    m.set_attribute(String::from("width"), AttrValue::Int(640));
    m.set_attribute(String::from("flag"), AttrValue::Flag(true));
    match m.get_attribute(&String::from("width")) {
        Some(AttrValue::Int(v)) => assert_eq!(*v, 640),
        other => panic!("unexpected value: {:?}", other),
    }
    m.set_attribute(String::from("width"), AttrValue::Int(1280));
    match m.get_attribute(&String::from("width")) {
        Some(AttrValue::Int(v)) => assert_eq!(*v, 1280),
        other => panic!("unexpected value: {:?}", other),
    }
    match m.remove_attribute(&String::from("width")) {
        Some(AttrValue::Int(v)) => assert_eq!(v, 1280),
        other => panic!("unexpected value: {:?}", other),
    }
    assert!(m.get_attribute(&String::from("width")).is_none());
    assert!(m.remove_attribute(&String::from("width")).is_none());
    match m.get_attribute(&String::from("flag")) {
        Some(AttrValue::Flag(b)) => assert!(*b),
        other => panic!("unexpected value: {:?}", other),
    }
}
