//! Images that are pasted into an input, and the marks that stand for them.

use crate::repl::turn::PastedImage;
use crate::text;
use vstd::prelude::*;

verus! {

/// Most images that one message can refer to: as many as there are marks.
pub const MAX_PASTED_IMAGES_PER_MESSAGE: usize = 20;

/// The mark of the first image, a one in a circle. The others follow.
pub const FIRST_MARKER: u32 = 0x2460;

/// The mark of the image with the given number.
pub open spec fn marker(index: int) -> char {
    (FIRST_MARKER + index) as u32 as char
}

pub open spec fn is_marker(c: char) -> bool {
    FIRST_MARKER <= c as u32 && (c as u32) < FIRST_MARKER + MAX_PASTED_IMAGES_PER_MESSAGE
}

/// The number of the image that a mark stands for.
pub open spec fn marked_index(c: char) -> usize {
    (c as u32 - FIRST_MARKER) as usize
}

/// The mark of the image with the given number, unless there are no more
/// marks.
pub fn marker_for_index(index: usize) -> (r: Option<char>)
    ensures
        r == (if index < MAX_PASTED_IMAGES_PER_MESSAGE {
            Some(marker(index as int))
        } else {
            None
        }),
{
    if index == 0 {
        Some('①')
    } else if index == 1 {
        Some('②')
    } else if index == 2 {
        Some('③')
    } else if index == 3 {
        Some('④')
    } else if index == 4 {
        Some('⑤')
    } else if index == 5 {
        Some('⑥')
    } else if index == 6 {
        Some('⑦')
    } else if index == 7 {
        Some('⑧')
    } else if index == 8 {
        Some('⑨')
    } else if index == 9 {
        Some('⑩')
    } else if index == 10 {
        Some('⑪')
    } else if index == 11 {
        Some('⑫')
    } else if index == 12 {
        Some('⑬')
    } else if index == 13 {
        Some('⑭')
    } else if index == 14 {
        Some('⑮')
    } else if index == 15 {
        Some('⑯')
    } else if index == 16 {
        Some('⑰')
    } else if index == 17 {
        Some('⑱')
    } else if index == 18 {
        Some('⑲')
    } else if index == 19 {
        Some('⑳')
    } else {
        None
    }
}

/// A text without the marks of images.
pub open spec fn unmarked(s: Seq<char>) -> Seq<char>
    decreases s.len(),
{
    if s.len() == 0 {
        Seq::empty()
    } else if is_marker(s.last()) {
        unmarked(s.drop_last())
    } else {
        unmarked(s.drop_last()).push(s.last())
    }
}

/// The numbers of the images that a text refers to, in their order.
pub open spec fn marked(s: Seq<char>) -> Seq<usize>
    decreases s.len(),
{
    if s.len() == 0 {
        Seq::empty()
    } else if is_marker(s.last()) {
        marked(s.drop_last()).push(marked_index(s.last()))
    } else {
        marked(s.drop_last())
    }
}

/// The text of an input: without marks, and without white space at its ends.
pub open spec fn cleaned(s: Seq<char>) -> Seq<char> {
    text::trimmed(unmarked(s))
}

/// The text of an input without the marks of images, and the numbers of the
/// images that it refers to.
pub fn strip_paste_markers(s: &str) -> (r: (String, Vec<usize>))
    ensures
        r.0@ == cleaned(s@),
        r.1@ == marked(s@),
{
    let chars = text::chars_of(s);
    let mut out = String::new();
    let mut indices: Vec<usize> = Vec::new();
    let mut i: usize = 0;
    assert(s@.take(0) =~= Seq::<char>::empty());
    while i < chars.len()
        invariant
            chars@ == s@,
            i <= s@.len(),
            out@ == unmarked(s@.take(i as int)),
            indices@ == marked(s@.take(i as int)),
        decreases s@.len() - i,
    {
        let c = chars[i];
        proof {
            assert(s@.take(i + 1).drop_last() =~= s@.take(i as int));
            assert(s@.take(i + 1).last() == c);
        }
        let code: u32 = c as u32;
        if FIRST_MARKER <= code && code - FIRST_MARKER < 20 {
            indices.push((code - FIRST_MARKER) as usize);
        } else {
            out.push(c);
        }
        i = i + 1;
    }
    assert(s@.take(i as int) =~= s@);
    (text::trim(out.as_str()), indices)
}

/// What becomes of a key in the line editor.
#[derive(Debug)]
pub enum EditAction {
    /// A text is put in.
    Insert(String),
    Nothing,
    /// The editor takes care of the key.
    PassOn,
}

#[verifier::ext_equal]
pub enum EditView {
    Insert { text: Seq<char> },
    Nothing,
    PassOn,
}

impl View for EditAction {
    type V = EditView;

    open spec fn view(&self) -> EditView {
        match *self {
            EditAction::Insert(text) => EditView::Insert { text: text@ },
            EditAction::Nothing => EditView::Nothing,
            EditAction::PassOn => EditView::PassOn,
        }
    }
}

/// What is on the clipboard.
#[derive(Debug)]
pub enum Clip {
    Image(PastedImage),
    Text(String),
    Nothing,
}

/// What is put in for an image with a mark.
pub open spec fn marker_text(marker: char) -> Seq<char> {
    seq![marker, ' ']
}

pub(crate) fn marker_string(marker: char) -> (r: String)
    ensures
        r@ == marker_text(marker),
{
    let mut s = String::new();
    s.push(marker);
    s.push(' ');
    assert(s@ =~= marker_text(marker));
    s
}

/// The line editor's pasting: images are kept, and marks stand for them.
#[derive(Debug)]
pub struct ClipboardEditMode {
    pub images: Vec<PastedImage>,
    /// How many images were pasted.
    pub counter: usize,
}

impl ClipboardEditMode {
    /// An editor that nothing was pasted into.
    pub fn new() -> (r: Self)
        ensures
            r.images@.len() == 0,
            r.counter == 0,
    {
        ClipboardEditMode { images: Vec::new(), counter: 0 }
    }

    /// Takes a key into account. An image is kept, and its mark is put in; a
    /// text is put in as it is. An image that there is no mark for is left
    /// where it is.
    pub fn parse_event(&mut self, is_paste: bool, clip: Clip) -> (r: EditAction)
        ensures
            if !is_paste {
                r@ == EditView::PassOn && *final(self) == *old(self)
            } else {
                match clip {
                    Clip::Image(image) => if old(self).counter < MAX_PASTED_IMAGES_PER_MESSAGE {
                        &&& r@ == (EditView::Insert {
                            text: marker_text(marker(old(self).counter as int)),
                        })
                        &&& final(self).images@ == old(self).images@.push(image)
                        &&& final(self).counter == old(self).counter + 1
                    } else {
                        r@ == EditView::Nothing && *final(self) == *old(self)
                    },
                    Clip::Text(text) => {
                        &&& r@ == (if text@.len() > 0 {
                            EditView::Insert { text: text@ }
                        } else {
                            EditView::Nothing
                        })
                        &&& *final(self) == *old(self)
                    },
                    Clip::Nothing => r@ == EditView::Nothing && *final(self) == *old(self),
                }
            },
    {
        if !is_paste {
            return EditAction::PassOn;
        }
        match clip {
            Clip::Image(image) => match marker_for_index(self.counter) {
                Some(marker) => {
                    self.counter = self.counter + 1;
                    self.images.push(image);
                    EditAction::Insert(marker_string(marker))
                },
                None => EditAction::Nothing,
            },
            Clip::Text(text) => if text.as_str().is_empty() {
                EditAction::Nothing
            } else {
                EditAction::Insert(text)
            },
            Clip::Nothing => EditAction::Nothing,
        }
    }
}

/// A mark stands for the image that it was made for, and for no other.
pub proof fn mark_names_its_image(index: int, other: int)
    requires
        0 <= index < MAX_PASTED_IMAGES_PER_MESSAGE,
        0 <= other < MAX_PASTED_IMAGES_PER_MESSAGE,
    ensures
        is_marker(marker(index)),
        marked_index(marker(index)) == index,
        marker(index) == marker(other) ==> index == other,
{
}

/// Putting a mark behind an input refers to its image after all others, and
/// leaves the text as it is.
pub proof fn pasted_image_is_referred_to_last(s: Seq<char>, index: int)
    requires
        0 <= index < MAX_PASTED_IMAGES_PER_MESSAGE,
    ensures
        marked(s.push(marker(index))) == marked(s).push(index as usize),
        unmarked(s.push(marker(index))) == unmarked(s),
{
    mark_names_its_image(index, index);
    assert(s.push(marker(index)).drop_last() =~= s);
}

/// A text holds no marks once they were taken out, and one without marks is
/// only trimmed.
pub proof fn no_mark_is_left(s: Seq<char>)
    ensures
        forall|i: int| 0 <= i < unmarked(s).len() ==> !is_marker(#[trigger] unmarked(s)[i]),
        marked(s).len() == 0 ==> unmarked(s) == s,
        marked(s).len() + unmarked(s).len() == s.len(),
    decreases s.len(),
{
    if s.len() > 0 {
        no_mark_is_left(s.drop_last());
        assert(s.drop_last().push(s.last()) =~= s);
    }
}

} // verus!
