use sofos::clipboard::{
    marker_for_index, strip_paste_markers, Clip, ClipboardEditMode, EditAction,
    MAX_PASTED_IMAGES_PER_MESSAGE,
};
use sofos::repl::turn::PastedImage;

fn image(n: usize) -> PastedImage {
    PastedImage {
        media_type: "image/png".to_string(),
        base64_data: format!("{n}"),
    }
}

#[test]
fn marks_name_their_images() {
    for i in 0..MAX_PASTED_IMAGES_PER_MESSAGE {
        let mark = marker_for_index(i).expect("there is a mark");
        let text = format!("a {mark} b");
        let (_, refs) = strip_paste_markers(&text);
        assert_eq!(refs, vec![i]);
    }
    assert!(marker_for_index(MAX_PASTED_IMAGES_PER_MESSAGE).is_none());
}

#[test]
fn no_mark_survives_the_strip() {
    let text = format!(
        "{}look{}",
        marker_for_index(1).unwrap(),
        marker_for_index(0).unwrap()
    );
    let (clean, refs) = strip_paste_markers(&text);
    assert_eq!(clean.trim(), "look");
    assert_eq!(refs, vec![1, 0]);
    let (again, none) = strip_paste_markers(&clean);
    assert_eq!(again, clean);
    assert!(none.is_empty());
}

#[test]
fn pasted_images_are_kept_in_order() {
    let mut mode = ClipboardEditMode::new();
    for i in 0..2 {
        match mode.parse_event(true, Clip::Image(image(i))) {
            EditAction::Insert(text) => {
                let (_, refs) = strip_paste_markers(&text);
                assert_eq!(refs, vec![i]);
            }
            other => panic!("expected a mark, got {other:?}"),
        }
    }
    assert_eq!(mode.images.len(), 2);
    assert_eq!(mode.images[1].base64_data, "1");
}

#[test]
fn pasted_text_is_put_in() {
    let mut mode = ClipboardEditMode::new();
    match mode.parse_event(true, Clip::Text("hello".to_string())) {
        EditAction::Insert(text) => assert_eq!(text, "hello"),
        other => panic!("expected text, got {other:?}"),
    }
    assert!(matches!(mode.parse_event(true, Clip::Nothing), EditAction::Nothing));
    assert!(matches!(mode.parse_event(false, Clip::Nothing), EditAction::PassOn));
}

#[test]
fn too_many_images_are_refused() {
    let mut mode = ClipboardEditMode::new();
    for i in 0..MAX_PASTED_IMAGES_PER_MESSAGE {
        mode.parse_event(true, Clip::Image(image(i)));
    }
    assert!(matches!(
        mode.parse_event(true, Clip::Image(image(99))),
        EditAction::Nothing
    ));
    assert_eq!(mode.images.len(), MAX_PASTED_IMAGES_PER_MESSAGE);
}
