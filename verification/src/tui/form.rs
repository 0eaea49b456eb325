//! The parts of the setup form: focus, extension chips, flags, search depth.

use crate::text::{copied, decimal, joined, lowercase, one_of, same_text, trim_leading};
use vstd::prelude::*;

verus! {

// ---- Focus ----------------------------------------------------------------

/// The field that has the focus.
#[derive(Clone, Copy, Debug, PartialEq, Eq, Structural)]
pub enum Focus {
    Pattern,
    Directory,
    Extensions,
    Flags,
    OcrEnginePicker,
    MaxDepth,
    Limit,
    RunButton,
}

impl Focus {
    /// The place of a field in the ring of fields.
    pub open spec fn place(self) -> int {
        match self {
            Focus::Pattern => 0,
            Focus::Directory => 1,
            Focus::Extensions => 2,
            Focus::Flags => 3,
            Focus::OcrEnginePicker => 4,
            Focus::MaxDepth => 5,
            Focus::Limit => 6,
            Focus::RunButton => 7,
        }
    }

    /// The field after this one; the first comes after the last.
    pub fn next(self) -> (r: Focus)
        ensures
            r.place() == (self.place() + 1) % 8,
    {
        match self {
            Focus::Pattern => Focus::Directory,
            Focus::Directory => Focus::Extensions,
            Focus::Extensions => Focus::Flags,
            Focus::Flags => Focus::OcrEnginePicker,
            Focus::OcrEnginePicker => Focus::MaxDepth,
            Focus::MaxDepth => Focus::Limit,
            Focus::Limit => Focus::RunButton,
            Focus::RunButton => Focus::Pattern,
        }
    }

    /// The field before this one; the last comes before the first.
    pub fn prev(self) -> (r: Focus)
        ensures
            r.place() == (self.place() + 7) % 8,
    {
        match self {
            Focus::Pattern => Focus::RunButton,
            Focus::Directory => Focus::Pattern,
            Focus::Extensions => Focus::Directory,
            Focus::Flags => Focus::Extensions,
            Focus::OcrEnginePicker => Focus::Flags,
            Focus::MaxDepth => Focus::OcrEnginePicker,
            Focus::Limit => Focus::MaxDepth,
            Focus::RunButton => Focus::Limit,
        }
    }
}

/// A field is known by its place.
pub proof fn law_place_identifies_field(a: Focus, b: Focus)
    ensures
        a == b <==> a.place() == b.place(),
        0 <= a.place() < 8,
{
}

/// Going on and back leads to where one was, and so does going back and on.
pub proof fn law_prev_is_inverse_of_next(field: Focus, next: Focus, back: Focus, prev: Focus, on: Focus)
    requires
        next.place() == (field.place() + 1) % 8,
        back.place() == (next.place() + 7) % 8,
        prev.place() == (field.place() + 7) % 8,
        on.place() == (prev.place() + 1) % 8,
    ensures
        back == field,
        on == field,
{
}

// ---- Search depth ---------------------------------------------------------

/// The number of choices for the search depth.
pub const DEPTHS: usize = 7;

/// The choices for the search depth; without one there is no limit.
pub open spec fn depth_option(at: int) -> Option<usize> {
    if at == 0 {
        None
    } else if at == 1 {
        Some(1)
    } else if at == 2 {
        Some(2)
    } else if at == 3 {
        Some(3)
    } else if at == 4 {
        Some(5)
    } else if at == 5 {
        Some(10)
    } else {
        Some(20)
    }
}

/// The choice in a place.
pub fn max_depth_option(at: usize) -> (r: Option<usize>)
    requires
        at < DEPTHS,
    ensures
        r == depth_option(at as int),
{
    match at {
        0 => None,
        1 => Some(1),
        2 => Some(2),
        3 => Some(3),
        4 => Some(5),
        5 => Some(10),
        _ => Some(20),
    }
}

/// The place of a search depth among the choices, 0 for one that is not there.
pub open spec fn depth_place(depth: Option<usize>) -> int {
    match depth {
        None => 0,
        Some(n) => if n == 1 {
            1
        } else if n == 2 {
            2
        } else if n == 3 {
            3
        } else if n == 5 {
            4
        } else if n == 10 {
            5
        } else if n == 20 {
            6
        } else {
            0
        },
    }
}

/// The place of a search depth among the choices, 0 for one that is not there.
pub fn max_depth_index(current: Option<usize>) -> (r: usize)
    ensures
        r == depth_place(current),
        r < DEPTHS,
{
    match current {
        None => 0,
        Some(n) => match n {
            1 => 1,
            2 => 2,
            3 => 3,
            5 => 4,
            10 => 5,
            20 => 6,
            _ => 0,
        },
    }
}

/// The name of a search depth.
pub open spec fn depth_label(depth: Option<usize>) -> Seq<char> {
    match depth {
        None => "unlimited"@,
        Some(n) => crate::text::decimal_of(n as nat) + " levels"@,
    }
}

/// The name of a search depth.
pub fn max_depth_label(d: Option<usize>) -> (r: String)
    ensures
        r@ == depth_label(d),
{
    match d {
        None => copied("unlimited"),
        Some(n) => joined(decimal(n as u64).as_str(), " levels"),
    }
}

/// Each choice is found in its place.
pub proof fn law_depth_place(at: int)
    requires
        0 <= at < DEPTHS,
    ensures
        depth_place(depth_option(at)) == at,
{
}

/// One step on and one step back lead to the same choice.
pub proof fn law_depth_steps_are_inverse(depth: Option<usize>)
    ensures
        ({
            let on = depth_option((depth_place(depth) + 1) % DEPTHS as int);
            let back = depth_option((depth_place(on) + DEPTHS - 1) % DEPTHS as int);
            back == depth_option(depth_place(depth))
        }),
        depth_option(depth_place(depth)) == depth || depth_option(depth_place(depth)) is None,
{
}

// ---- Moving a cursor ------------------------------------------------------

/// Moves a cursor in a ring of `len` places.
fn moved(cursor: usize, delta: isize, len: usize) -> (r: usize)
    requires
        0 < len,
        cursor < len,
    ensures
        r == (cursor + delta) % (len as int),
        r < len,
{
    if delta >= 0 {
        let step = (delta as usize) % len;
        proof {
            vstd::arithmetic::div_mod::lemma_add_mod_noop(cursor as int, delta as int, len as int);
            vstd::arithmetic::div_mod::lemma_small_mod(cursor as nat, len as nat);
        }
        forward(cursor, step, len)
    } else {
        let back = (-(delta + 1)) as usize % len;
        // one more than `back` steps backwards are `len - 1 - back` steps forwards
        let step = len - 1 - back;
        proof {
            let l = len as int;
            let b = -(delta + 1);
            vstd::arithmetic::div_mod::lemma_fundamental_div_mod(b, l);
            let q = b / l;
            assert(delta == step - l * (q + 1)) by (nonlinear_arith)
                requires
                    b == l * q + b % l,
                    b == -(delta + 1),
                    step == l - 1 - b % l,
            ;
            vstd::arithmetic::div_mod::lemma_mod_multiples_vanish(
                -(q + 1),
                cursor + step,
                l,
            );
            assert(l * (-(q + 1)) + (cursor + step) == cursor + delta) by (nonlinear_arith)
                requires
                    delta == step - l * (q + 1),
            ;
        }
        forward(cursor, step, len)
    }
}

/// Moves a cursor forwards in a ring.
fn forward(cursor: usize, step: usize, len: usize) -> (r: usize)
    requires
        cursor < len,
        step < len,
    ensures
        r == (cursor + step) % (len as int),
        r < len,
{
    if step < len - cursor {
        proof {
            vstd::arithmetic::div_mod::lemma_small_mod((cursor + step) as nat, len as nat);
        }
        cursor + step
    } else {
        proof {
            vstd::arithmetic::div_mod::lemma_mod_multiples_vanish(
                1,
                cursor + step - len,
                len as int,
            );
            vstd::arithmetic::div_mod::lemma_small_mod((cursor + step - len) as nat, len as nat);
        }
        step - (len - cursor)
    }
}

/// A step of a cursor and the opposite step lead to where it was.
pub proof fn law_opposite_steps(cursor: int, delta: int, len: int)
    requires
        0 <= cursor < len,
    ensures
        ((cursor + delta) % len - delta) % len == cursor,
{
    vstd::arithmetic::div_mod::lemma_sub_mod_noop(cursor + delta, delta, len);
    vstd::arithmetic::div_mod::lemma_sub_mod_noop((cursor + delta) % len, delta, len);
    vstd::arithmetic::div_mod::lemma_mod_twice(cursor + delta, len);
    vstd::arithmetic::div_mod::lemma_small_mod(cursor as nat, len as nat);
}

// ---- Extension chips ------------------------------------------------------

/// Common file extensions offered as chips, ordered by perceived usefulness for
/// a first-time user.
pub const EXTENSION_CATALOG: [&'static str; 22] = [
    "txt", "md", "pdf", "docx", "rs", "py", "js", "ts", "json", "yaml", "toml", "html", "css", "go",
    "java", "c", "cpp", "sh", "log", "csv", "png", "jpg",
];

/// Extensions that can be switched on and off.
#[derive(Debug, Clone)]
pub struct ChipList {
    /// The extensions, and whether they are on.
    pub chips: Vec<(String, bool)>,
    /// The chip that the cursor is on.
    pub cursor: usize,
}

/// The chip for an extension that the user gave: without dots at its start, in
/// lowercase.
pub open spec fn chip_name(ext: Seq<char>) -> Seq<char> {
    crate::text::lower_of(crate::text::without_leading(ext, '.'))
}

/// The chips for extensions that the user gave.
pub open spec fn chip_names(extensions: Seq<String>) -> Seq<Seq<char>> {
    extensions.map_values(|e: String| chip_name(e@))
}

/// The names that are not in the catalog, each once, in the order in which they
/// are first seen.
pub open spec fn unlisted(names: Seq<Seq<char>>) -> Seq<Seq<char>>
    decreases names.len(),
{
    if names.len() == 0 {
        Seq::empty()
    } else {
        let before = unlisted(names.drop_last());
        if crate::text::listed(names.last(), EXTENSION_CATALOG@) || before.contains(names.last()) {
            before
        } else {
            before.push(names.last())
        }
    }
}

impl ChipList {
    /// The cursor is on a chip, if there is one.
    pub open spec fn wf(self) -> bool {
        self.cursor < self.chips@.len() || (self.chips@.len() == 0 && self.cursor == 0)
    }

    /// The chips of the catalog, on where the user gave the extension, and behind
    /// them those that the user gave and that are not in the catalog, all on.
    pub fn new(extensions: &Vec<String>) -> (r: ChipList)
        ensures
            r.wf(),
            r.cursor == 0,
            ({
                let names = chip_names(extensions@);
                let extras = unlisted(names);
                &&& r.chips@.len() == EXTENSION_CATALOG@.len() + extras.len()
                &&& forall|i: int|
                    0 <= i < EXTENSION_CATALOG@.len() ==> (#[trigger] r.chips@[i]).0@
                        == EXTENSION_CATALOG@[i]@ && r.chips@[i].1 == names.contains(
                        EXTENSION_CATALOG@[i]@,
                    )
                &&& forall|i: int|
                    EXTENSION_CATALOG@.len() <= i < r.chips@.len() ==> (#[trigger] r.chips@[i]).0@
                        == extras[i - EXTENSION_CATALOG@.len()] && r.chips@[i].1
            }),
    {
        let ghost names = chip_names(extensions@);
        let mut active: Vec<String> = Vec::new();
        let mut k: usize = 0;
        while k < extensions.len()
            invariant
                k <= extensions@.len(),
                names == chip_names(extensions@),
                crate::text::views(active@) == names.take(k as int),
            decreases extensions@.len() - k,
        {
            let ghost before = active@;
            let name = lowercase(trim_leading(extensions[k].as_str(), '.').as_str());
            active.push(name);
            proof {
                assert(crate::text::views(active@) =~= crate::text::views(before).push(name@));
                assert(names[k as int] == name@);
                assert(names.take(k + 1) =~= names.take(k as int).push(name@));
            }
            k += 1;
        }
        proof {
            assert(names.take(names.len() as int) =~= names);
        }
        let mut chips: Vec<(String, bool)> = Vec::new();
        let mut i: usize = 0;
        while i < 22
            invariant
                i <= 22,
                EXTENSION_CATALOG@.len() == 22,
                chips@.len() == i,
                crate::text::views(active@) == names,
                forall|j: int|
                    0 <= j < i ==> (#[trigger] chips@[j]).0@ == EXTENSION_CATALOG@[j]@
                        && chips@[j].1 == names.contains(EXTENSION_CATALOG@[j]@),
            decreases 22 - i,
        {
            let name = EXTENSION_CATALOG[i];
            let on = has_text(&active, name);
            chips.push((copied(name), on));
            i += 1;
        }
        let mut j: usize = 0;
        proof {
            assert(names.take(0) =~= Seq::<Seq<char>>::empty());
        }
        while j < active.len()
            invariant
                j <= active@.len(),
                EXTENSION_CATALOG@.len() == 22,
                crate::text::views(active@) == names,
                chips@.len() == 22 + unlisted(names.take(j as int)).len(),
                forall|i: int|
                    0 <= i < 22 ==> (#[trigger] chips@[i]).0@ == EXTENSION_CATALOG@[i]@
                        && chips@[i].1 == names.contains(EXTENSION_CATALOG@[i]@),
                forall|i: int|
                    22 <= i < chips@.len() ==> (#[trigger] chips@[i]).0@ == unlisted(
                        names.take(j as int),
                    )[i - 22] && chips@[i].1,
            decreases active@.len() - j,
        {
            let ghost extras = unlisted(names.take(j as int));
            let name = active[j].as_str();
            proof {
                assert(names[j as int] == name@);
                assert(names.take(j + 1).drop_last() =~= names.take(j as int));
                assert(names.take(j + 1).last() == name@);
            }
            if !one_of(name, &EXTENSION_CATALOG) {
                let mut known = false;
                let mut i: usize = 22;
                while i < chips.len()
                    invariant
                        22 <= i <= chips@.len(),
                        chips@.len() == 22 + extras.len(),
                        forall|i: int|
                            22 <= i < chips@.len() ==> (#[trigger] chips@[i]).0@ == extras[i - 22],
                        known == exists|l: int| 0 <= l < i - 22 && extras[l] == name@,
                    decreases chips@.len() - i,
                {
                    if same_text(chips[i].0.as_str(), name) {
                        proof {
                            assert(extras[i - 22] == name@);
                        }
                        known = true;
                    }
                    i += 1;
                }
                proof {
                    assert(known == extras.contains(name@));
                }
                if !known {
                    chips.push((copied(name), true));
                }
            }
            j += 1;
        }
        proof {
            assert(names.take(names.len() as int) =~= names);
        }
        ChipList { chips, cursor: 0 }
    }

    /// The chips are as `before`, but for the one under the cursor.
    pub open spec fn toggled_from(self, before: ChipList) -> bool {
        &&& self.cursor == before.cursor
        &&& self.chips@.len() == before.chips@.len()
        &&& forall|i: int|
            0 <= i < before.chips@.len() ==> (#[trigger] self.chips@[i]).0@ == before.chips@[i].0@
                && self.chips@[i].1 == (if i == before.cursor {
                !before.chips@[i].1
            } else {
                before.chips@[i].1
            })
    }

    /// Switches the chip under the cursor.
    pub fn toggle_current(&mut self)
        ensures
            final(self).toggled_from(*old(self)),
    {
        if self.cursor < self.chips.len() {
            let at = self.cursor;
            let name = copied(self.chips[at].0.as_str());
            let on = self.chips[at].1;
            self.chips.set(at, (name, !on));
        }
    }

    /// Moves the cursor in the ring of chips.
    pub fn move_cursor(&mut self, delta: isize)
        requires
            old(self).wf(),
        ensures
            final(self).wf(),
            final(self).chips@ == old(self).chips@,
            final(self).cursor == (if old(self).chips@.len() == 0 {
                0int
            } else {
                (old(self).cursor + delta) % (old(self).chips@.len() as int)
            }),
    {
        let len = self.chips.len();
        if len == 0 {
            return ;
        }
        self.cursor = moved(self.cursor, delta, len);
    }

    /// The names of the chips that are on.
    pub open spec fn names_on(self) -> Seq<Seq<char>> {
        self.chips@.filter(|c: (String, bool)| c.1).map_values(|c: (String, bool)| c.0@)
    }

    /// The names of the chips that are on.
    pub fn selected(&self) -> (r: Vec<String>)
        ensures
            crate::text::views(r@) == self.names_on(),
    {
        let ghost on = |c: (String, bool)| c.1;
        let ghost name = |c: (String, bool)| c.0@;
        let mut out: Vec<String> = Vec::new();
        let mut i: usize = 0;
        proof {
            reveal(Seq::filter);
            assert(crate::text::views(out@) =~= self.chips@.take(0).filter(on).map_values(name));
        }
        while i < self.chips.len()
            invariant
                i <= self.chips@.len(),
                on == (|c: (String, bool)| c.1),
                name == (|c: (String, bool)| c.0@),
                crate::text::views(out@) == self.chips@.take(i as int).filter(on).map_values(name),
            decreases self.chips@.len() - i,
        {
            let ghost before = out@;
            proof {
                reveal(Seq::filter);
                assert(self.chips@.take(i + 1).drop_last() =~= self.chips@.take(i as int));
                assert(self.chips@.take(i + 1).last() == self.chips@[i as int]);
            }
            if self.chips[i].1 {
                out.push(copied(self.chips[i].0.as_str()));
                proof {
                    assert(crate::text::views(out@) =~= crate::text::views(before).push(
                        self.chips@[i as int].0@,
                    ));
                    assert(self.chips@.take(i + 1).filter(on).map_values(name) =~= self.chips@.take(
                        i as int,
                    ).filter(on).map_values(name).push(self.chips@[i as int].0@));
                }
            }
            i += 1;
        }
        proof {
            assert(self.chips@.take(self.chips@.len() as int) =~= self.chips@);
        }
        out
    }

    /// The number of chips that are on.
    pub fn active_count(&self) -> (r: usize)
        ensures
            r == self.names_on().len(),
    {
        let on = self.selected();
        proof {
            assert(crate::text::views(on@).len() == on@.len());
        }
        on.len()
    }
}

/// Whether a text is among others.
fn has_text(texts: &Vec<String>, text: &str) -> (r: bool)
    ensures
        r == crate::text::views(texts@).contains(text@),
{
    let mut i: usize = 0;
    while i < texts.len()
        invariant
            i <= texts@.len(),
            forall|k: int| 0 <= k < i ==> (#[trigger] texts@[k])@ != text@,
        decreases texts@.len() - i,
    {
        if same_text(texts[i].as_str(), text) {
            proof {
                assert(crate::text::views(texts@)[i as int] == text@);
            }
            return true;
        }
        i += 1;
    }
    false
}

// ---- Flags ----------------------------------------------------------------

/// Ordered set of togglable search flags. The cursor is a place among the
/// entries.
#[derive(Debug, Clone, Copy, PartialEq, Eq, Structural)]
pub struct Flags {
    pub case_sensitive: bool,
    pub use_regex: bool,
    pub ocr: bool,
    pub include_hidden: bool,
    pub show_preview: bool,
    pub use_index: bool,
    pub save_index: bool,
    pub cursor: usize,
}

/// The labels of the flags.
pub const FLAG_LABELS: [&'static str; 7] = [
    "case sensitive", "regex mode", "OCR on images", "include hidden", "preview matches",
    "use saved index", "save / update index",
];

/// What the flags do.
pub const FLAG_HINTS: [&'static str; 7] = [
    "match upper/lowercase exactly", "treat query as a regex",
    "read text inside PNG/JPG and scanned PDFs", "scan dotfiles and hidden folders",
    "show a line of context for each hit", "skip re-reading unchanged files (much faster)",
    "write an index file for future speed-ups",
];

impl Flags {
    /// The number of flags.
    pub const LEN: usize = 7;

    /// The cursor is on a flag.
    pub open spec fn wf(self) -> bool {
        self.cursor < 7
    }

    /// The flag in a place.
    pub open spec fn flag(self, at: int) -> bool {
        if at == 0 {
            self.case_sensitive
        } else if at == 1 {
            self.use_regex
        } else if at == 2 {
            self.ocr
        } else if at == 3 {
            self.include_hidden
        } else if at == 4 {
            self.show_preview
        } else if at == 5 {
            self.use_index
        } else {
            self.save_index
        }
    }

    /// The flags with their labels and what they do.
    pub fn entries(&self) -> (r: [(&'static str, bool, &'static str); 7])
        ensures
            forall|i: int|
                0 <= i < 7 ==> (#[trigger] r@[i]).0@ == FLAG_LABELS@[i]@ && r@[i].1 == self.flag(i)
                    && r@[i].2@ == FLAG_HINTS@[i]@,
    {
        [
            (FLAG_LABELS[0], self.case_sensitive, FLAG_HINTS[0]),
            (FLAG_LABELS[1], self.use_regex, FLAG_HINTS[1]),
            (FLAG_LABELS[2], self.ocr, FLAG_HINTS[2]),
            (FLAG_LABELS[3], self.include_hidden, FLAG_HINTS[3]),
            (FLAG_LABELS[4], self.show_preview, FLAG_HINTS[4]),
            (FLAG_LABELS[5], self.use_index, FLAG_HINTS[5]),
            (FLAG_LABELS[6], self.save_index, FLAG_HINTS[6]),
        ]
    }

    /// The flags are as `before`, but for the one under the cursor.
    pub open spec fn toggled_from(self, before: Flags) -> bool {
        &&& self.cursor == before.cursor
        &&& forall|i: int|
            0 <= i < 7 ==> #[trigger] self.flag(i) == (if i == before.cursor {
                !before.flag(i)
            } else {
                before.flag(i)
            })
    }

    /// Switches the flag under the cursor.
    pub fn toggle_current(&mut self)
        ensures
            final(self).toggled_from(*old(self)),
    {
        match self.cursor {
            0 => {
                self.case_sensitive = !self.case_sensitive;
            },
            1 => {
                self.use_regex = !self.use_regex;
            },
            2 => {
                self.ocr = !self.ocr;
            },
            3 => {
                self.include_hidden = !self.include_hidden;
            },
            4 => {
                self.show_preview = !self.show_preview;
            },
            5 => {
                self.use_index = !self.use_index;
            },
            6 => {
                self.save_index = !self.save_index;
            },
            _ => {},
        }
    }

    /// Moves the cursor in the ring of flags.
    pub fn move_cursor(&mut self, delta: isize)
        requires
            old(self).wf(),
        ensures
            *final(self) == (Flags { cursor: final(self).cursor, ..*old(self) }),
            final(self).wf(),
            final(self).cursor == (old(self).cursor + delta) % 7,
    {
        self.cursor = moved(self.cursor, delta, 7);
    }
}

/// Flags are known by their seven places and the cursor.
pub proof fn law_flags_by_place(a: Flags, b: Flags)
    ensures
        a == b <==> (a.cursor == b.cursor && forall|i: int|
            0 <= i < 7 ==> #[trigger] a.flag(i) == b.flag(i)),
{
    if a.cursor == b.cursor && forall|i: int| 0 <= i < 7 ==> #[trigger] a.flag(i) == b.flag(i) {
        assert(a.flag(0) == b.flag(0) && a.flag(1) == b.flag(1) && a.flag(2) == b.flag(2));
        assert(a.flag(3) == b.flag(3) && a.flag(4) == b.flag(4) && a.flag(5) == b.flag(5));
        assert(a.flag(6) == b.flag(6));
    }
}

/// Switching a flag twice leaves the flags as they were.
pub proof fn law_flag_toggle_undoes_itself(first: Flags, second: Flags, third: Flags)
    requires
        second.toggled_from(first),
        third.toggled_from(second),
    ensures
        third == first,
{
    assert forall|i: int| 0 <= i < 7 implies #[trigger] third.flag(i) == first.flag(i) by {
        assert(second.flag(i) == second.flag(i));
    }
    law_flags_by_place(first, third);
}

/// Switching a chip twice leaves the chips as they were.
pub proof fn law_chip_toggle_undoes_itself(first: ChipList, second: ChipList, third: ChipList)
    requires
        second.toggled_from(first),
        third.toggled_from(second),
    ensures
        third.cursor == first.cursor,
        third.chips@.len() == first.chips@.len(),
        forall|i: int|
            0 <= i < first.chips@.len() ==> (#[trigger] third.chips@[i]).0@ == first.chips@[i].0@
                && third.chips@[i].1 == first.chips@[i].1,
{
    assert forall|i: int| 0 <= i < first.chips@.len() implies (#[trigger] third.chips@[i]).0@
        == first.chips@[i].0@ && third.chips@[i].1 == first.chips@[i].1 by {
        assert(second.chips@[i].0@ == first.chips@[i].0@);
    }
}

} // verus!
