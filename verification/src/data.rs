//! Tables that come with the game but are no part of its banks: the font,
//! the texts and the frequencies at which sounds are played.

use vstd::prelude::*;

verus! {

/// Bytes of the font: 96 glyphs of eight rows, from the space on.
pub const FONT_SIZE: usize = 768;

/// Lowest frequency that a sound can be played at: a sound is never
/// stretched to more than four times its length.
pub const MIN_FREQUENCY: u16 = 2206;

/// A text of the game with the number by which the scripts call it.
pub struct Text {
    pub id: u16,
    pub text: Vec<char>,
}

/// What a `Text` holds.
pub struct TextView {
    pub id: u16,
    pub text: Seq<char>,
}

impl View for Text {
    type V = TextView;

    open spec fn view(&self) -> TextView {
        TextView { id: self.id, text: self.text@ }
    }
}

pub struct Tables {
    pub(crate) font: Vec<u8>,
    pub(crate) strings: Vec<Text>,
    pub(crate) frequencies: Vec<u16>,
}

/// What a `Tables` holds.
#[verifier::ext_equal]
pub struct TablesView {
    pub font: Seq<u8>,
    pub strings: Seq<TextView>,
    pub frequencies: Seq<u16>,
}

impl View for Tables {
    type V = TablesView;

    open(crate) spec fn view(&self) -> TablesView {
        TablesView {
            font: self.font@,
            strings: Seq::new(self.strings@.len(), |i: int| self.strings@[i]@),
            frequencies: self.frequencies@,
        }
    }
}

impl TablesView {
    /// The font is complete and no frequency is too low to play at.
    pub open spec fn wf(self) -> bool {
        &&& self.font.len() == FONT_SIZE
        &&& forall|i: int|
            0 <= i < self.frequencies.len() ==> #[trigger] self.frequencies[i] >= MIN_FREQUENCY
    }
}

impl Tables {
    /// Puts the tables together, or hands them back as `None` when the font
    /// has not `FONT_SIZE` bytes or a frequency is below `MIN_FREQUENCY`.
    pub fn new(font: Vec<u8>, strings: Vec<Text>, frequencies: Vec<u16>) -> (res: Option<Tables>)
        ensures
            match res {
                Some(t) => t@.wf() && t@.font == font@ && t@.frequencies == frequencies@
                    && t@.strings == Seq::new(strings@.len(), |i: int| strings@[i]@),
                None => !(TablesView {
                    font: font@,
                    strings: Seq::new(strings@.len(), |i: int| strings@[i]@),
                    frequencies: frequencies@,
                }).wf(),
            },
    {
        if font.len() != FONT_SIZE {
            return None;
        }
        let mut i: usize = 0;
        while i < frequencies.len()
            invariant
                i <= frequencies@.len(),
                forall|k: int| 0 <= k < i ==> #[trigger] frequencies@[k] >= MIN_FREQUENCY,
            decreases frequencies@.len() - i,
        {
            if frequencies[i] < MIN_FREQUENCY {
                proof {
                    let tv = TablesView {
                        font: font@,
                        strings: Seq::new(strings@.len(), |i: int| strings@[i]@),
                        frequencies: frequencies@,
                    };
                    assert(tv.frequencies[i as int] < MIN_FREQUENCY);
                    assert(!tv.wf());
                }
                return None;
            }
            i += 1;
        }
        Some(Tables { font, strings, frequencies })
    }
}

/// Index of the first text called `id`.
pub open spec fn string_index(table: Seq<TextView>, id: u16) -> Option<int> {
    if exists|i: int| is_first_match(table, id, i) {
        Some(choose|i: int| is_first_match(table, id, i))
    } else {
        None
    }
}

/// Whether text `i` is called `id` and none before it is.
pub open spec fn is_first_match(table: Seq<TextView>, id: u16, i: int) -> bool {
    &&& 0 <= i < table.len()
    &&& table[i].id == id
    &&& forall|j: int| 0 <= j < i ==> (#[trigger] table[j]).id != id
}

/// Only one text is the first called `id`.
pub proof fn lemma_first_match_unique(table: Seq<TextView>, id: u16, i: int, j: int)
    requires
        is_first_match(table, id, i),
        is_first_match(table, id, j),
    ensures
        i == j,
{
    if i < j {
        assert(table[i].id != id);
    } else if j < i {
        assert(table[j].id != id);
    }
}

/// Finds the first text called `id`.
pub fn find_string(table: &[Text], id: u16) -> (res: Option<usize>)
    ensures
        match res {
            Some(i) => string_index(Seq::new(table@.len(), |k: int| table@[k]@), id) == Some(
                i as int,
            ),
            None => string_index(Seq::new(table@.len(), |k: int| table@[k]@), id) is None,
        },
{
    let ghost views = Seq::new(table@.len(), |k: int| table@[k]@);
    let mut i: usize = 0;
    while i < table.len()
        invariant
            i <= table@.len(),
            views == Seq::new(table@.len(), |k: int| table@[k]@),
            forall|j: int| 0 <= j < i ==> (#[trigger] views[j]).id != id,
        decreases table@.len() - i,
    {
        if table[i].id == id {
            proof {
                assert(is_first_match(views, id, i as int));
                let c = choose|k: int| is_first_match(views, id, k);
                lemma_first_match_unique(views, id, i as int, c);
            }
            return Some(i);
        }
        i += 1;
    }
    assert forall|k: int| !is_first_match(views, id, k) by {
        if is_first_match(views, id, k) {
            assert(views[k].id != id);
        }
    }
    None
}

} // verus!
