use vstd::prelude::*;

verus! {

/// The mathematical content of a stored record: what the contracts speak of.
pub struct ChapterV {
    pub user: Seq<u8>,
    pub bump: u8,
    pub chapter: u8,
}

/// The persisted record: the 32-byte identity key of its owner, the
/// canonical bump seed found during address derivation, and a chapter
/// count bounded at 200.  All three are set once at creation and never
/// change afterwards.
#[derive(Debug)]
pub struct Chapter {
    pub user: Vec<u8>,
    pub bump: u8,
    pub chapter: u8,
}

impl View for Chapter {
    type V = ChapterV;

    open spec fn view(&self) -> ChapterV {
        ChapterV { user: self.user@, bump: self.bump, chapter: self.chapter }
    }
}

impl Chapter {
    /// Well-formedness: the identity key is exactly 32 bytes and the
    /// chapter count respects its bound.
    pub open spec fn wf(&self) -> bool {
        self.user@.len() == 32 && self.chapter <= 200
    }
}

/// The storage footprint of one record: the 8-byte metadata header the
/// host prefixes to every account, then the 32-byte identity key, the
/// bump and the chapter count.
pub fn chapter_space() -> (n: u64)
    ensures
        n == 42,
{
    8 + 32 + 1 + 1
}

} // verus!
