use vstd::prelude::*;

use crate::data::font::FontData;
use crate::data::Data;

verus! {

/// A part of a line: some text, in a font of its own or the line's, or a
/// change of font.
pub enum TextBitData {
    Text { font: Option<FontData>, text: String },
    FontChange { font: FontData },
}

pub open spec fn option_font_rerooted(new: Option<FontData>, old: Option<FontData>, base: Seq<char>) -> bool {
    match (old, new) {
        (None, None) => true,
        (Some(a), Some(b)) => b.rerooted_from(a, base),
        _ => false,
    }
}

fn reroot_option_font(font: &mut Option<FontData>, base_path: &str)
    ensures
        option_font_rerooted(*final(font), *old(font), base_path@),
{
    match font {
        Some(f) => f.reroot(base_path),
        None => {},
    }
}

impl TextBitData {
    /// This is `old` with its paths resolved against `base`.
    pub open spec fn rerooted_from(self, old: TextBitData, base: Seq<char>) -> bool {
        match (old, self) {
            (TextBitData::Text { font: f1, text: t1 }, TextBitData::Text { font: f2, text: t2 }) =>
                option_font_rerooted(f2, f1, base) && t1 == t2,
            (TextBitData::FontChange { font: f1 }, TextBitData::FontChange { font: f2 }) =>
                f2.rerooted_from(f1, base),
            _ => false,
        }
    }
}

impl Data for TextBitData {
    fn reroot(&mut self, base_path: &str)
        ensures
            final(self).rerooted_from(*old(self), base_path@),
    {
        match self {
            TextBitData::Text { font, .. } => reroot_option_font(font, base_path),
            TextBitData::FontChange { font } => font.reroot(base_path),
        }
    }
}

/// The texts of the text parts among `parts`, in order.
pub open spec fn texts_of(parts: Seq<TextBitData>) -> Seq<Seq<char>>
    decreases parts.len(),
{
    if parts.len() == 0 {
        Seq::empty()
    } else {
        let rest = texts_of(parts.drop_last());
        match parts.last() {
            TextBitData::Text { text, .. } => rest.push(text@),
            TextBitData::FontChange { .. } => rest,
        }
    }
}

/// A line of text: a default font and its parts.
pub struct TextLineData {
    pub font: Option<FontData>,
    pub parts: Vec<TextBitData>,
}

impl TextLineData {
    /// This is `old` with its paths resolved against `base`.
    pub open spec fn rerooted_from(self, old: TextLineData, base: Seq<char>) -> bool {
        &&& option_font_rerooted(self.font, old.font, base)
        &&& self.parts@.len() == old.parts@.len()
        &&& forall|i: int| 0 <= i < self.parts@.len()
            ==> #[trigger] self.parts@[i].rerooted_from(old.parts@[i], base)
    }

    /// The texts of the line's text parts, in order; changes of font are left out.
    pub fn texts(&self) -> (r: Vec<String>)
        ensures
            r@.map_values(|t: String| t@) == texts_of(self.parts@),
    {
        let mut texts: Vec<String> = Vec::new();
        let mut i: usize = 0;
        while i < self.parts.len()
            invariant
                i <= self.parts@.len(),
                texts@.map_values(|t: String| t@) == texts_of(self.parts@.subrange(0, i as int)),
            decreases self.parts.len() - i,
        {
            let ghost before = texts@;
            assert(self.parts@.subrange(0, i + 1).drop_last() == self.parts@.subrange(0, i as int));
            match &self.parts[i] {
                TextBitData::Text { text, .. } => {
                    texts.push(text.clone());
                    assert(texts@.map_values(|t: String| t@) =~= before.map_values(|t: String| t@).push(text@));
                },
                TextBitData::FontChange { .. } => {},
            }
            i = i + 1;
        }
        assert(self.parts@.subrange(0, self.parts@.len() as int) == self.parts@);
        texts
    }
}

impl Data for TextLineData {
    fn reroot(&mut self, base_path: &str)
        ensures
            final(self).rerooted_from(*old(self), base_path@),
    {
        reroot_option_font(&mut self.font, base_path);
        let ghost font_after = self.font;
        let n = self.parts.len();
        let ghost before = self.parts@;
        let mut i: usize = 0;
        while i < n
            invariant
                i <= n,
                n == before.len(),
                self.parts@.len() == n,
                self.font == font_after,
                forall|k: int| 0 <= k < i ==> #[trigger] self.parts@[k].rerooted_from(before[k], base_path@),
                forall|k: int| i <= k < n ==> #[trigger] self.parts@[k] == before[k],
            decreases n - i,
        {
            let mut part = self.parts.remove(i);
            part.reroot(base_path);
            self.parts.insert(i, part);
            i = i + 1;
        }
    }
}

} // verus!
