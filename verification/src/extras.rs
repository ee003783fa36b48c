//! Extra files of ROMs, such as downloadable content and updates: for each ROM
//! identifier the names of the files found for it.

use vstd::prelude::*;
use crate::table::{lemma_pairing_at, Table};
use crate::text::{chars_of, string_views};

verus! {

/// The lower-case form of an ASCII capital; any other character unchanged.
pub open spec fn ascii_lower(c: char) -> char {
    if 'A' <= c && c <= 'Z' {
        ((c as u8) + 32) as char
    } else {
        c
    }
}

/// Whether two texts are equal once their ASCII capitals are lowered.
pub open spec fn same_ignoring_ascii_case(a: Seq<char>, b: Seq<char>) -> bool {
    a.len() == b.len() && forall|i: int| 0 <= i < a.len() ==> ascii_lower(a[i]) == ascii_lower(b[i])
}

/// Position of the first name in `names` that equals `name` up to ASCII case,
/// or `names.len()` when there is none.
pub open spec fn position_ignoring_case(names: Seq<Seq<char>>, name: Seq<char>) -> int
    decreases names.len(),
{
    if names.len() == 0 {
        0
    } else if same_ignoring_ascii_case(names[0], name) {
        0
    } else {
        1 + position_ignoring_case(names.drop_first(), name)
    }
}

/// The index after `filename` was recorded for `rom_id`: appended to the ROM's
/// list, which starts empty.
pub open spec fn with_file(
    m: Map<Seq<char>, Seq<Seq<char>>>,
    rom_id: Seq<char>,
    filename: Seq<char>,
) -> Map<Seq<char>, Seq<Seq<char>>> {
    if m.dom().contains(rom_id) {
        m.insert(rom_id, m[rom_id].push(filename))
    } else {
        m.insert(rom_id, seq![filename])
    }
}

/// The index after `filename` was taken off the list of `rom_id`: the first
/// name equal to it up to ASCII case leaves. An unknown ROM or name changes
/// nothing.
pub open spec fn without_file(
    m: Map<Seq<char>, Seq<Seq<char>>>,
    rom_id: Seq<char>,
    filename: Seq<char>,
) -> Map<Seq<char>, Seq<Seq<char>>> {
    if m.dom().contains(rom_id) && position_ignoring_case(m[rom_id], filename) < m[rom_id].len() {
        m.insert(rom_id, m[rom_id].remove(position_ignoring_case(m[rom_id], filename)))
    } else {
        m
    }
}

/// The lower-case form of an ASCII capital; any other character unchanged.
pub fn to_ascii_lower(c: char) -> (r: char)
    ensures
        r == ascii_lower(c),
{
    if c >= 'A' && c <= 'Z' {
        ((c as u8) + 32) as char
    } else {
        c
    }
}

/// Whether two texts are equal once their ASCII capitals are lowered.
pub fn eq_ignore_ascii_case(a: &str, b: &str) -> (r: bool)
    ensures
        r == same_ignoring_ascii_case(a@, b@),
{
    let x = chars_of(a);
    let y = chars_of(b);
    if x.len() != y.len() {
        return false;
    }
    let mut i: usize = 0;
    while i < x.len()
        invariant
            0 <= i <= x.len(),
            x.len() == y.len(),
            x@ == a@,
            y@ == b@,
            forall|k: int| 0 <= k < i ==> ascii_lower(x@[k]) == ascii_lower(y@[k]),
        decreases x.len() - i,
    {
        if to_ascii_lower(x[i]) != to_ascii_lower(y[i]) {
            return false;
        }
        i = i + 1;
    }
    true
}

/// The extra files of each ROM, by ROM identifier.
pub struct ExtrasIndex {
    files: Table<Vec<String>>,
}

impl View for ExtrasIndex {
    type V = Map<Seq<char>, Seq<Seq<char>>>;

    closed spec fn view(&self) -> Map<Seq<char>, Seq<Seq<char>>> {
        Map::new(
            |k: Seq<char>| self.files@.dom().contains(k),
            |k: Seq<char>| string_views(self.files@[k]@),
        )
    }
}

impl ExtrasIndex {
    /// An index without files.
    pub fn new() -> (r: Self)
        ensures
            r@ == Map::<Seq<char>, Seq<Seq<char>>>::empty(),
    {
        let r = ExtrasIndex { files: Table::new() };
        assert(r@ =~= Map::<Seq<char>, Seq<Seq<char>>>::empty());
        r
    }

    /// Number of ROMs with extra files on record.
    pub fn len(&self) -> (n: usize)
        ensures
            n == self@.dom().len(),
            self@.dom().finite(),
    {
        let n = self.files.len();
        assert(self@.dom() =~= self.files@.dom());
        n
    }

    /// The files on record for `rom_id`.
    pub fn get(&self, rom_id: &str) -> (r: Option<&Vec<String>>)
        ensures
            match r {
                Some(names) => self@.dom().contains(rom_id@) && string_views(names@)
                    == self@[rom_id@],
                None => !self@.dom().contains(rom_id@),
            },
    {
        self.files.get(rom_id)
    }

    /// The identifiers of the ROMs with extra files on record, each once.
    pub fn rom_ids(&self) -> (r: Vec<String>)
        ensures
            r.len() == self@.dom().len(),
            forall|i: int| 0 <= i < r.len() ==> self@.dom().contains(#[trigger] r[i]@),
            forall|i: int, j: int| 0 <= i < j < r.len() ==> r[i]@ != r[j]@,
    {
        let n = self.files.len();
        let mut r: Vec<String> = Vec::new();
        let mut i: usize = 0;
        assert(self@.dom() =~= self.files@.dom());
        while i < n
            invariant
                0 <= i <= n,
                r.len() == i,
                n == self.files.spec_keys().len(),
                forall|k: int| 0 <= k < i ==> (#[trigger] r[k])@ == self.files.spec_keys()[k],
            decreases n - i,
        {
            r.push(self.files.key_at(i).clone());
            i = i + 1;
        }
        proof {
            assert forall|k: int| 0 <= k < r.len() implies self@.dom().contains(
                #[trigger] r[k]@,
            ) by {
                lemma_pairing_at(
                    self.files.spec_keys(),
                    self.files.spec_values(),
                    k,
                );
            }
            assert forall|a: int, b: int| 0 <= a < b < r.len() implies r[a]@ != r[b]@ by {
                assert(self.files.spec_keys()[a] != self.files.spec_keys()[b]);
            }
        }
        r
    }

    /// Records `filename` as an extra file of `rom_id`.
    pub fn add(&mut self, rom_id: &str, filename: &str)
        ensures
            final(self)@ == with_file(old(self)@, rom_id@, filename@),
    {
        let mut files: Table<Vec<String>> = Table::new();
        std::mem::swap(&mut files, &mut self.files);
        let mut names: Vec<String> = match files.remove(rom_id) {
            Some(names) => names,
            None => Vec::new(),
        };
        let ghost before = names@;
        names.push(filename.to_owned());
        assert(string_views(names@) =~= string_views(before).push(filename@));
        files.insert(rom_id, names);
        self.files = files;
        proof {
            let goal = with_file(old(self)@, rom_id@, filename@);
            assert(self@.dom() =~= goal.dom());
            assert forall|k: Seq<char>| self@.dom().contains(k) implies self@[k] == goal[k] by {
                if k == rom_id@ {
                    assert(self.files@[k] == names);
                }
            }
            assert(self@ =~= goal);
        }
    }

    /// Takes `filename` off the record of `rom_id`, letter case of ASCII
    /// letters ignored, and says whether a name left.
    pub fn remove(&mut self, rom_id: &str, filename: &str) -> (removed: bool)
        ensures
            final(self)@ == without_file(old(self)@, rom_id@, filename@),
            removed == (old(self)@.dom().contains(rom_id@) && position_ignoring_case(
                old(self)@[rom_id@],
                filename@,
            ) < old(self)@[rom_id@].len()),
    {
        let found = match self.files.get(rom_id) {
            None => {
                return false;
            },
            Some(names) => {
                let mut i: usize = 0;
                let ghost all = string_views(names@);
                assert(all.skip(0) =~= all);
                while i < names.len() && !eq_ignore_ascii_case(names[i].as_str(), filename)
                    invariant
                        0 <= i <= names.len(),
                        all == string_views(names@),
                        position_ignoring_case(all, filename@) == i + position_ignoring_case(
                            all.skip(i as int),
                            filename@,
                        ),
                    decreases names.len() - i,
                {
                    proof {
                        assert(all.skip(i as int)[0] == names[i as int]@);
                        assert(all.skip(i as int).drop_first() =~= all.skip(i + 1));
                    }
                    i = i + 1;
                }
                proof {
                    if i < names.len() {
                        assert(all.skip(i as int)[0] == names[i as int]@);
                    }
                }
                if i == names.len() {
                    return false;
                }
                i
            },
        };
        let mut files: Table<Vec<String>> = Table::new();
        std::mem::swap(&mut files, &mut self.files);
        match files.remove(rom_id) {
            Some(names) => {
                let mut names = names;
                let ghost before = names@;
                names.remove(found);
                assert(string_views(names@) =~= string_views(before).remove(found as int));
                files.insert(rom_id, names);
            },
            None => {},
        }
        self.files = files;
        assert(self@ =~= without_file(old(self)@, rom_id@, filename@));
        true
    }
}

} // verus!
