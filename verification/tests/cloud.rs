use plexi::cloud_protocol::{
    apply, diff, frame_bytes, split_frame, CloudPayload, CloudUiNode, FrameType, PatchOp,
    ProtocolError, UiNodePatch,
};
use plexi::cloud_runtime::{
    hex_sha256, CloudLifecycle, CloudRuntimeError, CounterCloudLifecycle, LocalCloudClient,
    LocalCloudRuntime,
};

#[test]
fn diff_patch_round_trip_for_large_tree() {
    let mut prev = CloudUiNode::new("root", "column");
    for idx in 0..200 {
        let mut child = CloudUiNode::new(format!("row-{idx}"), "text");
        child.props.insert("text".into(), format!("old {idx}"));
        prev.children.push(child);
    }
    let mut next = prev.clone();
    for idx in [4, 18, 42, 99, 175] {
        next.children[idx]
            .props
            .insert("text".into(), format!("new {idx}"));
    }
    next.children.remove(150);
    next.children.push(CloudUiNode::new("row-new", "button"));

    let patch = diff(Some(&prev), &next);
    let changed = patch
        .ops
        .iter()
        .filter(|op| !matches!(op, PatchOp::Skip { .. }))
        .count();
    assert!(changed <= 20, "changed ops={changed}, patch={patch:?}");

    let mut applied = prev;
    apply(&mut applied, &patch);
    assert_eq!(applied, next);
}

#[test]
fn local_cloud_runtime_round_trips_view_input_and_reconnect() {
    let runtime = LocalCloudRuntime::new(CounterCloudLifecycle::new("poc.counter"));
    let mut client = LocalCloudClient::new(runtime);

    let initial = client.request_view().expect("initial view should succeed");
    assert!(initial
        .iter()
        .any(|frame| matches!(frame.payload, CloudPayload::UiNodePatch(_))));
    assert_eq!(
        client
            .cached_tree()
            .and_then(|tree| tree.children.first())
            .and_then(|node| node.props.get("text"))
            .map(String::as_str),
        Some("Count: 0")
    );
    let initial_hash = client
        .state_hash()
        .expect("initial state sync should set hash")
        .to_string();

    let updated = client
        .send_input(r#"{"type":"click","target":"increment"}"#)
        .expect("input event should update runtime");
    let updated_patch = updated
        .iter()
        .find_map(|frame| match &frame.payload {
            CloudPayload::UiNodePatch(patch) => Some(patch),
            _ => None,
        })
        .expect("input should return a patch");
    assert!(updated_patch.ops.iter().any(|op| matches!(
        op,
        PatchOp::Replace { key, .. } if key == "count-label"
    )));
    assert_eq!(
        client
            .cached_tree()
            .and_then(|tree| tree.children.first())
            .and_then(|node| node.props.get("text"))
            .map(String::as_str),
        Some("Count: 1")
    );
    assert_ne!(
        client.state_hash(),
        Some(initial_hash.as_str()),
        "input event should update state hash"
    );
    assert_eq!(
        client.snapshot_json(),
        Some(r#"{"count":1,"last_event":"{\"type\":\"click\",\"target\":\"increment\"}"}"#)
    );

    let reconnect = client
        .request_view()
        .expect("matching reconnect state hash should succeed");
    assert!(
        !reconnect
            .iter()
            .any(|frame| matches!(frame.payload, CloudPayload::StateSync(_))),
        "matching state hash should suppress redundant StateSync"
    );
}

#[test]
fn diff_of_identical_trees_is_one_skip() {
    let mut t = CloudUiNode::new("root", "column");
    t.children.push(CloudUiNode::new("a", "text"));
    let patch = diff(Some(&t), &t);
    assert_eq!(patch.ops.len(), 1);
    assert!(matches!(&patch.ops[0], PatchOp::Skip { key } if key == "root"));
    let mut applied = t.clone();
    apply(&mut applied, &patch);
    assert_eq!(applied, t);
}

#[test]
fn diff_from_nothing_replaces_with_whole_tree() {
    let mut t = CloudUiNode::new("", "column");
    t.children.push(CloudUiNode::new("a", "text"));
    let patch = diff(None, &t);
    assert_eq!(patch.ops.len(), 1);
    assert!(matches!(&patch.ops[0], PatchOp::Replace { key, node } if key == "0" && node == &t));
}

#[test]
fn diff_uses_positional_keys_for_unkeyed_children() {
    let mut prev = CloudUiNode::new("root", "column");
    prev.children.push(CloudUiNode::new("", "text"));
    prev.children.push(CloudUiNode::new("", "text"));
    let mut next = prev.clone();
    next.children[1].props.insert("text".into(), "hi".into());
    let patch = diff(Some(&prev), &next);
    assert_eq!(patch.ops.len(), 2);
    assert!(matches!(&patch.ops[0], PatchOp::Skip { key } if key == "0/0"));
    assert!(matches!(&patch.ops[1], PatchOp::Replace { key, .. } if key == "0/1"));
}

#[test]
fn apply_removes_children_by_key() {
    let mut tree = CloudUiNode::new("root", "column");
    let mut inner = CloudUiNode::new("box", "row");
    inner.children.push(CloudUiNode::new("x", "text"));
    tree.children.push(inner);
    tree.children.push(CloudUiNode::new("y", "text"));
    let patch = UiNodePatch {
        ops: vec![PatchOp::Remove { key: "x".into() }, PatchOp::Remove { key: "y".into() }],
    };
    apply(&mut tree, &patch);
    assert_eq!(tree.children.len(), 1);
    assert_eq!(tree.children[0].key, "box");
    assert!(tree.children[0].children.is_empty());
}

#[test]
fn apply_replaces_first_match_depth_first() {
    let mut tree = CloudUiNode::new("root", "column");
    let mut inner = CloudUiNode::new("box", "row");
    inner.children.push(CloudUiNode::new("x", "text"));
    tree.children.push(inner);
    tree.children.push(CloudUiNode::new("x", "text"));
    let patch = UiNodePatch {
        ops: vec![PatchOp::Replace { key: "x".into(), node: CloudUiNode::new("x", "button") }],
    };
    apply(&mut tree, &patch);
    assert_eq!(tree.children[0].children[0].kind, "button");
    assert_eq!(tree.children[1].kind, "text");
}

#[test]
fn frame_header_round_trips() {
    let payload = vec![9u8, 8, 7];
    let bytes = frame_bytes(FrameType::StateSync, &payload);
    assert_eq!(bytes, vec![6, 0, 0, 0, 3, 9, 8, 7]);
    let (ty, body) = split_frame(&bytes).unwrap();
    assert_eq!(ty, FrameType::StateSync);
    assert_eq!(body, payload);
}

#[test]
fn frame_header_errors() {
    assert!(matches!(split_frame(&vec![1, 0, 0]), Err(ProtocolError::FrameTooShort)));
    assert!(matches!(
        split_frame(&vec![9, 0, 0, 0, 0]),
        Err(ProtocolError::UnknownFrameType(9))
    ));
    assert!(matches!(
        split_frame(&vec![1, 0, 0, 0, 2, 5]),
        Err(ProtocolError::LengthMismatch { expected: 2, actual: 1 })
    ));
}

#[test]
fn state_hash_is_hex_sha256_of_snapshot() {
    let counter = CounterCloudLifecycle::new("c");
    assert_eq!(counter.snapshot_json(), r#"{"count":0,"last_event":null}"#);
    assert_eq!(counter.state_hash(), hex_sha256(&counter.snapshot_json()));
    assert_eq!(
        hex_sha256(""),
        "e3b0c44298fc1c149afbf4c8996fb92427ae41e4649b934ca495991b7852b855"
    );
}

#[test]
fn counter_refuses_malformed_event_and_ignores_other_clicks() {
    let mut counter = CounterCloudLifecycle::new("c");
    assert!(matches!(
        counter.update("not json"),
        Err(CloudRuntimeError::InvalidInputEvent(_))
    ));
    assert_eq!(counter.snapshot_json(), r#"{"count":0,"last_event":null}"#);
    counter.update(r#"{"type":"click","target":"other"}"#).unwrap();
    assert_eq!(
        counter.snapshot_json(),
        r#"{"count":0,"last_event":"{\"type\":\"click\",\"target\":\"other\"}"}"#
    );
}

#[test]
fn runtime_refuses_other_frames() {
    let mut runtime = LocalCloudRuntime::new(CounterCloudLifecycle::new("c"));
    let frame = plexi::cloud_protocol::CloudFrame {
        frame_type: FrameType::EffectRequest,
        payload: CloudPayload::EffectRequest(plexi::cloud_protocol::EffectRequestFrame {
            request_id: 1,
            effect_json: "{}".into(),
        }),
    };
    match runtime.handle_frame(frame) {
        Err(CloudRuntimeError::UnexpectedFrame { expected, actual }) => {
            assert_eq!(expected, "ViewRequest or InputEvent");
            assert_eq!(actual, FrameType::EffectRequest);
        }
        other => panic!("unexpected {other:?}"),
    }
}

#[test]
fn nested_changes_round_trip() {
    let mut prev = CloudUiNode::new("root", "column");
    for g in 0..3 {
        let mut group = CloudUiNode::new(format!("g{g}"), "row");
        for i in 0..4 {
            let mut leaf = CloudUiNode::new(format!("g{g}-{i}"), "text");
            leaf.props.insert("text".into(), format!("v{g}{i}"));
            group.children.push(leaf);
        }
        prev.children.push(group);
    }
    let mut next = prev.clone();
    next.children[1].children[2].props.insert("text".into(), "changed".into());
    next.children[2].children.push(CloudUiNode::new("g2-new", "button"));
    next.children[0].kind = "stack".into();
    let patch = diff(Some(&prev), &next);
    let replaced: Vec<&str> = patch
        .ops
        .iter()
        .filter_map(|op| match op {
            PatchOp::Replace { key, .. } => Some(key.as_str()),
            _ => None,
        })
        .collect();
    assert_eq!(replaced, vec!["g0", "g1-2", "g2"]);
    let mut applied = prev.clone();
    apply(&mut applied, &patch);
    assert_eq!(applied, next);
}
