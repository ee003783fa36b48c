//! The parsers of a library: the rules that decide which parser is kept, and
//! the registry of the parsers that were.

use vstd::prelude::*;
use crate::library::{
    pattern_views, Library, LibraryView, Parser, ParserPattern, ParserPatternView, ParserView,
};
use crate::listing::{entry_views, DirEntry, DirEntryView, EntryKind};
use crate::paths::{join_paths, joined};
use crate::pattern::{is_valid_glob, is_valid_regex, valid_glob, valid_regex};
use crate::table::{distinct, lemma_pairing_at, pairing, Table};
use crate::text::{
    chars_of, decimal, optional_text, parse_u64, split, split_chars, string_views, views,
};

verus! {

/// The first rule that a parser breaks.
#[derive(Debug, PartialEq, Eq, Structural, Clone, Copy)]
pub enum ValidationError {
    /// The display name is empty.
    EmptyName,
    /// The abbreviation is empty.
    EmptyAbbreviation,
    /// The folder name is empty.
    EmptyFolder,
    /// The tag's background colour is empty.
    EmptyBackgroundColor,
    /// The tag's background colour does not have three parts.
    MalformedBackgroundColor,
    /// A part of the tag's background colour is no decimal number.
    NonNumericBackgroundColor,
    /// The parser has no pattern.
    NoPatterns,
    /// The glob of the pattern at this position is not valid: it is not
    /// admitted, or does not compile.
    InvalidGlob(usize),
    /// The regular expression of the pattern at this position does not compile.
    InvalidRegex(usize),
}

/// What is wrong with a tag's background colour, which has to be three decimal
/// numbers with single spaces between them.
pub open spec fn color_problem(color: Seq<char>) -> Option<ValidationError> {
    let parts = split(color, ' ');
    if color.len() == 0 {
        Some(ValidationError::EmptyBackgroundColor)
    } else if parts.len() != 3 {
        Some(ValidationError::MalformedBackgroundColor)
    } else if decimal(parts[0]) is None || decimal(parts[1]) is None || decimal(parts[2]) is None {
        Some(ValidationError::NonNumericBackgroundColor)
    } else {
        None
    }
}

/// What is wrong with the fields of a parser, its patterns' expressions aside.
pub open spec fn field_problem(p: ParserView) -> Option<ValidationError> {
    if p.name.len() == 0 {
        Some(ValidationError::EmptyName)
    } else if p.abbreviation.len() == 0 {
        Some(ValidationError::EmptyAbbreviation)
    } else if p.folder.len() == 0 {
        Some(ValidationError::EmptyFolder)
    } else if color_problem(p.tag_config.background_color) is Some {
        color_problem(p.tag_config.background_color)
    } else if p.patterns.len() == 0 {
        Some(ValidationError::NoPatterns)
    } else {
        None
    }
}

/// The first expression, from position `from` on, that does not compile: of
/// each pattern the glob is looked at before the regular expression.
pub open spec fn pattern_problem(patterns: Seq<ParserPatternView>, from: int) -> Option<
    ValidationError,
>
    decreases patterns.len() - from,
{
    if from < 0 || from >= patterns.len() {
        None
    } else if !valid_glob(patterns[from].glob) {
        Some(ValidationError::InvalidGlob(from as usize))
    } else if !valid_regex(patterns[from].regex) {
        Some(ValidationError::InvalidRegex(from as usize))
    } else {
        pattern_problem(patterns, from + 1)
    }
}

/// The first rule that `p` breaks, if it breaks one.
pub open spec fn problem(p: ParserView) -> Option<ValidationError> {
    if field_problem(p) is Some {
        field_problem(p)
    } else {
        pattern_problem(p.patterns, 0)
    }
}

/// Whether `p` may enter the registry.
pub open spec fn valid_parser(p: ParserView) -> bool {
    problem(p) is None
}

/// A parser without a problem has its fields filled, a colour of three
/// numbers, at least one pattern, and only expressions that compile.
pub proof fn lemma_valid_parser(p: ParserView)
    requires
        valid_parser(p),
        p.patterns.len() <= usize::MAX,
    ensures
        p.name.len() > 0,
        p.abbreviation.len() > 0,
        p.folder.len() > 0,
        split(p.tag_config.background_color, ' ').len() == 3,
        forall|i: int| 0 <= i < 3 ==> decimal(split(p.tag_config.background_color, ' ')[i]) is Some,
        p.patterns.len() > 0,
        forall|i: int|
            0 <= i < p.patterns.len() ==> valid_glob(#[trigger] p.patterns[i].glob) && valid_regex(
                p.patterns[i].regex,
            ),
{
    lemma_no_pattern_problem(p.patterns, 0);
}

/// Where no expression from `from` on fails, every one of them compiles.
pub proof fn lemma_no_pattern_problem(patterns: Seq<ParserPatternView>, from: int)
    requires
        0 <= from,
        pattern_problem(patterns, from) is None,
    ensures
        forall|i: int|
            from <= i < patterns.len() ==> valid_glob(#[trigger] patterns[i].glob) && valid_regex(
                patterns[i].regex,
            ),
    decreases patterns.len() - from,
{
    if from < patterns.len() {
        lemma_no_pattern_problem(patterns, from + 1);
    }
}

/// Checks a tag's background colour.
pub fn check_color(color: &str) -> (r: Result<(), ValidationError>)
    ensures
        match r {
            Ok(_) => color_problem(color@) is None,
            Err(e) => color_problem(color@) == Some(e),
        },
{
    let chars = chars_of(color);
    if chars.len() == 0 {
        return Err(ValidationError::EmptyBackgroundColor);
    }
    let parts = split_chars(&chars, ' ');
    if parts.len() != 3 {
        return Err(ValidationError::MalformedBackgroundColor);
    }
    assert(views(parts@)[0] == parts[0]@);
    assert(views(parts@)[1] == parts[1]@);
    assert(views(parts@)[2] == parts[2]@);
    if parse_u64(&parts[0]).is_none() || parse_u64(&parts[1]).is_none() || parse_u64(
        &parts[2],
    ).is_none() {
        return Err(ValidationError::NonNumericBackgroundColor);
    }
    Ok(())
}

/// Checks the fields of a parser, its patterns' expressions aside.
pub fn check_fields(parser: &Parser) -> (r: Result<(), ValidationError>)
    ensures
        match r {
            Ok(_) => field_problem(parser@) is None,
            Err(e) => field_problem(parser@) == Some(e),
        },
{
    if parser.name.as_str().is_empty() {
        return Err(ValidationError::EmptyName);
    }
    if parser.abbreviation.as_str().is_empty() {
        return Err(ValidationError::EmptyAbbreviation);
    }
    if parser.folder.as_str().is_empty() {
        return Err(ValidationError::EmptyFolder);
    }
    match check_color(parser.tag_config.background_color.as_str()) {
        Err(e) => {
            return Err(e);
        },
        Ok(_) => {},
    }
    if parser.patterns.len() == 0 {
        return Err(ValidationError::NoPatterns);
    }
    Ok(())
}

/// Checks that the expressions of every pattern compile.
pub fn check_patterns(patterns: &Vec<ParserPattern>) -> (r: Result<(), ValidationError>)
    ensures
        match r {
            Ok(_) => pattern_problem(pattern_views(patterns@), 0) is None,
            Err(e) => pattern_problem(pattern_views(patterns@), 0) == Some(e),
        },
{
    let ghost all = pattern_views(patterns@);
    let mut i: usize = 0;
    while i < patterns.len()
        invariant
            0 <= i <= patterns.len(),
            all == pattern_views(patterns@),
            pattern_problem(all, 0) == pattern_problem(all, i as int),
        decreases patterns.len() - i,
    {
        assert(all[i as int] == patterns[i as int]@);
        if !is_valid_glob(patterns[i].glob.as_str()) {
            return Err(ValidationError::InvalidGlob(i));
        }
        if !is_valid_regex(patterns[i].regex.as_str()) {
            return Err(ValidationError::InvalidRegex(i));
        }
        i = i + 1;
    }
    Ok(())
}

/// Checks a parser against every rule and names the first one it breaks.
pub fn check_parser(parser: &Parser) -> (r: Result<(), ValidationError>)
    ensures
        match r {
            Ok(_) => problem(parser@) is None,
            Err(e) => problem(parser@) == Some(e),
        },
{
    match check_fields(parser) {
        Err(e) => Err(e),
        Ok(_) => check_patterns(&parser.patterns),
    }
}

/// Whether a parser may enter the registry.
pub fn validate_parser(parser: &Parser) -> (ok: bool)
    ensures
        ok == valid_parser(parser@),
{
    check_parser(parser).is_ok()
}

/// The parsers that passed validation, by abbreviation.
pub struct ParserRegistry {
    parsers: Table<Parser>,
}

impl View for ParserRegistry {
    type V = Map<Seq<char>, ParserView>;

    closed spec fn view(&self) -> Map<Seq<char>, ParserView> {
        Map::new(|k: Seq<char>| self.parsers@.dom().contains(k), |k: Seq<char>| self.parsers@[k]@)
    }
}

/// Whether some parser of `m` has the folder `folder`.
pub open spec fn has_folder(m: Map<Seq<char>, ParserView>, folder: Seq<char>) -> bool {
    exists|k: Seq<char>| m.dom().contains(k) && (#[trigger] m[k]).folder == folder
}

/// Position of the first parser in `parsers` whose folder is `folder`, or
/// `parsers.len()` when there is none.
pub open spec fn first_with_folder(parsers: Seq<Parser>, folder: Seq<char>) -> int
    decreases parsers.len(),
{
    if parsers.len() == 0 {
        0
    } else if parsers[0].folder@ == folder {
        0
    } else {
        1 + first_with_folder(parsers.drop_first(), folder)
    }
}

impl ParserRegistry {
    #[verifier::type_invariant]
    spec fn well_formed(&self) -> bool {
        forall|i: int|
            0 <= i < self.parsers.spec_keys().len() ==> (
            #[trigger] self.parsers.spec_values()[i]).abbreviation@ == self.parsers.spec_keys()[i]
    }

    /// A registry without parsers, in which no folder has an owner.
    pub fn new() -> (r: Self)
        ensures
            r@ == Map::<Seq<char>, ParserView>::empty(),
            forall|folder: Seq<char>| (#[trigger] r.folder_owner(folder)) is None,
    {
        let r = ParserRegistry { parsers: Table::new() };
        assert(r@ =~= Map::<Seq<char>, ParserView>::empty());
        r
    }

    /// Number of parsers.
    pub fn len(&self) -> (n: usize)
        ensures
            n == self@.dom().len(),
            self@.dom().finite(),
    {
        let n = self.parsers.len();
        assert(self@.dom() =~= self.parsers@.dom());
        n
    }

    /// Whether a parser with this abbreviation is registered.
    pub fn contains(&self, abbreviation: &str) -> (r: bool)
        ensures
            r == self@.dom().contains(abbreviation@),
    {
        self.parsers.contains_key(abbreviation)
    }

    /// The parser with this abbreviation.
    pub fn get(&self, abbreviation: &str) -> (r: Option<&Parser>)
        ensures
            match r {
                Some(p) => self@.dom().contains(abbreviation@) && p@ == self@[abbreviation@]
                    && p.abbreviation@ == abbreviation@,
                None => !self@.dom().contains(abbreviation@),
            },
    {
        proof {
            use_type_invariant(self);
        }
        match self.parsers.position(abbreviation) {
            Some(i) => Some(self.parsers.value_at(i)),
            None => None,
        }
    }

    /// Puts `parser` under its abbreviation, in place of any parser that was
    /// there.
    pub fn insert(&mut self, parser: Parser)
        ensures
            final(self)@ == old(self)@.insert(parser.abbreviation@, parser@),
    {
        proof {
            use_type_invariant(&*self);
        }
        let mut parsers: Table<Parser> = Table::new();
        std::mem::swap(&mut parsers, &mut self.parsers);
        let key = parser.abbreviation.clone();
        let ghost before = parsers;
        let previous = parsers.insert(key.as_str(), parser);
        proof {
            if previous is Some {
                let i = before.spec_keys().index_of(key@);
                assert(before.spec_keys().contains(key@));
                assert(0 <= i < before.spec_keys().len() && before.spec_keys()[i] == key@);
            }
        }
        self.parsers = parsers;
        assert(self@ =~= old(self)@.insert(parser.abbreviation@, parser@));
    }

    /// Validates `parser` and, if it breaks no rule, puts it under its
    /// abbreviation. A parser that breaks a rule is turned away with that rule
    /// and the registry stays as it was.
    pub fn register(&mut self, parser: Parser) -> (r: Result<(), ValidationError>)
        ensures
            match r {
                Ok(_) => valid_parser(parser@) && final(self)@ == old(self)@.insert(
                    parser.abbreviation@,
                    parser@,
                ),
                Err(e) => problem(parser@) == Some(e) && final(self)@ == old(self)@,
            },
    {
        match check_parser(&parser) {
            Err(e) => Err(e),
            Ok(_) => {
                self.insert(parser);
                Ok(())
            },
        }
    }

    /// Takes the parser with this abbreviation out and returns it.
    pub fn remove(&mut self, abbreviation: &str) -> (r: Option<Parser>)
        ensures
            final(self)@ == old(self)@.remove(abbreviation@),
            match r {
                Some(p) => old(self)@.dom().contains(abbreviation@) && p@ == old(
                    self,
                )@[abbreviation@],
                None => !old(self)@.dom().contains(abbreviation@),
            },
    {
        proof {
            use_type_invariant(&*self);
        }
        let mut parsers: Table<Parser> = Table::new();
        std::mem::swap(&mut parsers, &mut self.parsers);
        let ghost before = parsers;
        let r = parsers.remove(abbreviation);
        proof {
            if r is Some {
                let i = before.spec_keys().index_of(abbreviation@);
                assert(before.spec_keys().contains(abbreviation@));
                assert(0 <= i < before.spec_keys().len());
            }
        }
        self.parsers = parsers;
        assert(self@ =~= old(self)@.remove(abbreviation@));
        r
    }

    /// Abbreviation of the parser that scans the folder named `folder`: of the
    /// parsers with that folder, the one that was registered first.
    pub closed spec fn folder_owner(&self, folder: Seq<char>) -> Option<Seq<char>> {
        let i = first_with_folder(self.parsers.spec_values(), folder);
        if i < self.parsers.spec_keys().len() {
            Some(self.parsers.spec_keys()[i])
        } else {
            None
        }
    }

    /// The parser that scans the folder named `folder`, if there is one.
    pub fn find_by_folder(&self, folder: &str) -> (r: Option<&Parser>)
        ensures
            match r {
                Some(p) => self.folder_owner(folder@) == Some(p.abbreviation@) && p.folder@
                    == folder@ && self@.dom().contains(p.abbreviation@) && self@[p.abbreviation@]
                    == p@,
                None => self.folder_owner(folder@) is None && !has_folder(self@, folder@),
            },
    {
        proof {
            use_type_invariant(self);
        }
        let wanted = folder.to_owned();
        let n = self.parsers.len();
        let mut i: usize = 0;
        let ghost values = self.parsers.spec_values();
        assert(values.skip(0) =~= values);
        while i < n
            invariant
                0 <= i <= n,
                n == self.parsers.spec_keys().len(),
                n == self.parsers.spec_values().len(),
                values == self.parsers.spec_values(),
                wanted@ == folder@,
                distinct(self.parsers.spec_keys()),
                self.parsers@ == pairing(self.parsers.spec_keys(), self.parsers.spec_values()),
                forall|k: int|
                    0 <= k < n ==> (#[trigger] self.parsers.spec_values()[k]).abbreviation@
                        == self.parsers.spec_keys()[k],
                forall|k: int| 0 <= k < i ==> (#[trigger] values[k]).folder@ != folder@,
                first_with_folder(values, folder@) == i + first_with_folder(
                    values.skip(i as int),
                    folder@,
                ),
            decreases n - i,
        {
            let p = self.parsers.value_at(i);
            proof {
                assert(values.skip(i as int)[0] == values[i as int]);
                assert(values.skip(i as int).drop_first() =~= values.skip(i + 1));
            }
            if p.folder == wanted {
                proof {
                    lemma_pairing_at(
                        self.parsers.spec_keys(),
                        self.parsers.spec_values(),
                        i as int,
                    );
                }
                return Some(p);
            }
            i = i + 1;
        }
        proof {
            if has_folder(self@, folder@) {
                let k = choose|k: Seq<char>|
                    self@.dom().contains(k) && (#[trigger] self@[k]).folder == folder@;
                assert(self.parsers.spec_keys().contains(k));
                let j = self.parsers.spec_keys().index_of(k);
                lemma_pairing_at(
                    self.parsers.spec_keys(),
                    self.parsers.spec_values(),
                    j,
                );
                assert(values[j].folder@ != folder@);
            }
        }
        None
    }

    /// Copies of all parsers: each registered parser once.
    pub fn systems(&self) -> (r: Vec<Parser>)
        ensures
            r.len() == self@.dom().len(),
            forall|i: int|
                0 <= i < r.len() ==> self@.dom().contains((#[trigger] r[i]).abbreviation@)
                    && self@[r[i].abbreviation@] == r[i]@,
            forall|i: int, j: int|
                0 <= i < j < r.len() ==> r[i].abbreviation@ != r[j].abbreviation@,
    {
        proof {
            use_type_invariant(self);
        }
        let n = self.parsers.len();
        let mut r: Vec<Parser> = Vec::new();
        let mut i: usize = 0;
        assert(self@.dom() =~= self.parsers@.dom());
        while i < n
            invariant
                0 <= i <= n,
                r.len() == i,
                n == self.parsers.spec_keys().len(),
                n == self.parsers.spec_values().len(),
                distinct(self.parsers.spec_keys()),
                self.parsers@ == pairing(self.parsers.spec_keys(), self.parsers.spec_values()),
                forall|k: int|
                    0 <= k < n ==> (#[trigger] self.parsers.spec_values()[k]).abbreviation@
                        == self.parsers.spec_keys()[k],
                forall|k: int| 0 <= k < i ==> (#[trigger] r[k])@ == self.parsers.spec_values()[k]@,
            decreases n - i,
        {
            r.push(self.parsers.value_at(i).clone());
            i = i + 1;
        }
        proof {
            assert forall|k: int| 0 <= k < r.len() implies self@.dom().contains(
                (#[trigger] r[k]).abbreviation@,
            ) && self@[r[k].abbreviation@] == r[k]@ by {
                lemma_pairing_at(
                    self.parsers.spec_keys(),
                    self.parsers.spec_values(),
                    k,
                );
                assert(r[k]@.abbreviation == self.parsers.spec_values()[k]@.abbreviation);
            }
            assert forall|a: int, b: int| 0 <= a < b < r.len() implies r[a].abbreviation@
                != r[b].abbreviation@ by {
                assert(r[a]@.abbreviation == self.parsers.spec_values()[a]@.abbreviation);
                assert(r[b]@.abbreviation == self.parsers.spec_values()[b]@.abbreviation);
                assert(self.parsers.spec_keys()[a] != self.parsers.spec_keys()[b]);
            }
        }
        r
    }
}

/// Name of the file that holds the parser for the folder `folder`.
pub open spec fn parser_file_name(folder: Seq<char>) -> Seq<char> {
    folder + seq!['.', 'j', 's', 'o', 'n']
}

/// Where the ROMs of the system in `folder` lie: the library's root, its ROM
/// directory, then the folder.
pub open spec fn system_rom_folder(library: LibraryView, folder: Seq<char>) -> Seq<char> {
    joined(joined(library.library_path, library.rom_dir), folder)
}

/// Where the BIOS files of the system in `folder` lie: the library's root, its
/// BIOS directory, then the folder.
pub open spec fn system_bios_folder(library: LibraryView, folder: Seq<char>) -> Seq<char> {
    joined(joined(library.library_path, library.bios_dir), folder)
}

/// What saving a parser does on disk.
#[derive(Debug, PartialEq, Eq)]
pub struct SavePlan {
    /// The file that receives the parser.
    pub file_path: String,
    /// For a parser that had no file yet: the ROM folder to create and to
    /// watch.
    pub new_folder: Option<String>,
}

/// What deleting a parser does on disk.
#[derive(Debug, PartialEq, Eq)]
pub struct DeletePlan {
    /// The file to remove.
    pub file_path: String,
    /// The ROM folder that is no longer watched.
    pub unwatch: String,
}

/// The file of `parser` in the directory `parsers_dir`.
pub fn parser_file_path(parsers_dir: &str, parser: &Parser) -> (r: String)
    ensures
        r@ == joined(parsers_dir@, parser_file_name(parser.folder@)),
{
    let mut name = parser.folder.clone();
    proof {
        reveal_strlit(".json");
        assert(".json"@ =~= seq!['.', 'j', 's', 'o', 'n']);
    }
    name.append(".json");
    join_paths(parsers_dir, name.as_str())
}

/// The ROM folder of the system that `parser` recognises.
pub fn rom_folder(library: &Library, parser: &Parser) -> (r: String)
    ensures
        r@ == system_rom_folder(library@, parser.folder@),
{
    let roms = join_paths(library.library_path.as_str(), library.rom_dir.as_str());
    join_paths(roms.as_str(), parser.folder.as_str())
}

/// The BIOS folder of the system that `parser` recognises.
pub fn bios_folder(library: &Library, parser: &Parser) -> (r: String)
    ensures
        r@ == system_bios_folder(library@, parser.folder@),
{
    let bios = join_paths(library.library_path.as_str(), library.bios_dir.as_str());
    join_paths(bios.as_str(), parser.folder.as_str())
}

/// Plans the saving of `parser`, given whether its file exists already: the
/// file is named after the folder, and a parser without a file yet gets its
/// ROM folder created and watched.
pub fn plan_save(parsers_dir: &str, library: &Library, parser: &Parser, file_exists: bool) -> (plan:
    SavePlan)
    ensures
        plan.file_path@ == joined(parsers_dir@, parser_file_name(parser.folder@)),
        optional_text(plan.new_folder) == (if file_exists {
            None
        } else {
            Some(system_rom_folder(library@, parser.folder@))
        }),
{
    let file_path = parser_file_path(parsers_dir, parser);
    let new_folder = if file_exists {
        None
    } else {
        Some(rom_folder(library, parser))
    };
    SavePlan { file_path, new_folder }
}

/// Plans the deletion of `parser`: its file goes, and its ROM folder is no
/// longer watched.
pub fn plan_delete(parsers_dir: &str, library: &Library, parser: &Parser) -> (plan: DeletePlan)
    ensures
        plan.file_path@ == joined(parsers_dir@, parser_file_name(parser.folder@)),
        plan.unwatch@ == system_rom_folder(library@, parser.folder@),
{
    DeletePlan {
        file_path: parser_file_path(parsers_dir, parser),
        unwatch: rom_folder(library, parser),
    }
}

/// The names of the files among `entries`, in order.
pub open spec fn file_names(entries: Seq<DirEntryView>) -> Seq<Seq<char>>
    decreases entries.len(),
{
    if entries.len() == 0 {
        Seq::empty()
    } else {
        let before = file_names(entries.drop_last());
        if entries.last().kind == EntryKind::File {
            before.push(entries.last().name)
        } else {
            before
        }
    }
}

/// The BIOS files of a system: the names of the files in its BIOS folder,
/// whose entries are `entries`.
pub fn load_bios_files(entries: &Vec<DirEntry>) -> (r: Vec<String>)
    ensures
        string_views(r@) == file_names(entry_views(entries@)),
{
    let mut r: Vec<String> = Vec::new();
    let mut i: usize = 0;
    let ghost all = entry_views(entries@);
    assert(all.take(0) =~= Seq::<DirEntryView>::empty());
    assert(string_views(r@) =~= Seq::<Seq<char>>::empty());
    while i < entries.len()
        invariant
            0 <= i <= entries.len(),
            all == entry_views(entries@),
            string_views(r@) == file_names(all.take(i as int)),
        decreases entries.len() - i,
    {
        let entry = &entries[i];
        proof {
            assert(all.take(i + 1).drop_last() =~= all.take(i as int));
            assert(all.take(i + 1).last() == entry@);
        }
        match entry.kind {
            EntryKind::File => {
                let name = entry.name.clone();
                proof {
                    assert(string_views(r@.push(name))
                        =~= string_views(r@).push(name@));
                }
                r.push(name);
            },
            _ => {},
        }
        i = i + 1;
    }
    assert(all.take(entries.len() as int) =~= all);
    r
}

/// The views of a sequence of parsers.
pub open spec fn parser_views(v: Seq<Parser>) -> Seq<ParserView> {
    Seq::new(v.len(), |i: int| v[i]@)
}

/// The registry after the valid ones among `candidates` were put into `m`,
/// one after the other: a later parser takes the place of an earlier one with
/// the same abbreviation.
pub open spec fn registered(m: Map<Seq<char>, ParserView>, candidates: Seq<ParserView>) -> Map<
    Seq<char>,
    ParserView,
>
    decreases candidates.len(),
{
    if candidates.len() == 0 {
        m
    } else {
        let before = registered(m, candidates.drop_last());
        if valid_parser(candidates.last()) {
            before.insert(candidates.last().abbreviation, candidates.last())
        } else {
            before
        }
    }
}

/// Whether every parser of `m` is valid and stands under its own
/// abbreviation.
pub open spec fn sound(m: Map<Seq<char>, ParserView>) -> bool {
    forall|k: Seq<char>|
        m.dom().contains(k) ==> valid_parser(#[trigger] m[k]) && m[k].abbreviation == k
}

/// Loading admits valid parsers only: a registry of valid parsers, each under
/// its own abbreviation, is still one after candidates were put into it.
pub proof fn lemma_registered_sound(m: Map<Seq<char>, ParserView>, candidates: Seq<ParserView>)
    requires
        sound(m),
    ensures
        sound(registered(m, candidates)),
    decreases candidates.len(),
{
    if candidates.len() > 0 {
        lemma_registered_sound(m, candidates.drop_last());
    }
}

/// Whether no two of `candidates` share an abbreviation.
pub open spec fn distinct_abbreviations(candidates: Seq<ParserView>) -> bool {
    forall|i: int, j: int|
        0 <= i < j < candidates.len() ==> candidates[i].abbreviation != candidates[j].abbreviation
}

/// Loading keeps every valid parser: where no two candidates share an
/// abbreviation, each valid one stands in the registry under its own.
pub proof fn lemma_registered_holds(
    m: Map<Seq<char>, ParserView>,
    candidates: Seq<ParserView>,
    i: int,
)
    requires
        distinct_abbreviations(candidates),
        0 <= i < candidates.len(),
        valid_parser(candidates[i]),
    ensures
        registered(m, candidates).dom().contains(candidates[i].abbreviation),
        registered(m, candidates)[candidates[i].abbreviation] == candidates[i],
    decreases candidates.len(),
{
    let before = candidates.drop_last();
    if i < candidates.len() - 1 {
        assert(before[i] == candidates[i]);
        assert(distinct_abbreviations(before)) by {
            assert forall|a: int, b: int| 0 <= a < b < before.len() implies before[a].abbreviation
                != before[b].abbreviation by {
                assert(before[a] == candidates[a]);
                assert(before[b] == candidates[b]);
            }
        }
        lemma_registered_holds(m, before, i);
        assert(candidates[i].abbreviation != candidates.last().abbreviation);
    }
}

/// Loading makes nothing up: whatever stands in the registry was there
/// before, or is one of the valid candidates.
pub proof fn lemma_registered_from(
    m: Map<Seq<char>, ParserView>,
    candidates: Seq<ParserView>,
    key: Seq<char>,
)
    requires
        registered(m, candidates).dom().contains(key),
    ensures
        (m.dom().contains(key) && registered(m, candidates)[key] == m[key]) || exists|i: int|
            0 <= i < candidates.len() && valid_parser(#[trigger] candidates[i])
                && registered(m, candidates)[key] == candidates[i] && candidates[i].abbreviation
                == key,
    decreases candidates.len(),
{
    if candidates.len() > 0 {
        let before = candidates.drop_last();
        let last = candidates.last();
        if valid_parser(last) && last.abbreviation == key {
            assert(candidates[candidates.len() - 1] == last);
        } else {
            lemma_registered_from(m, before, key);
            if !(m.dom().contains(key) && registered(m, before)[key] == m[key]) {
                let i = choose|i: int|
                    0 <= i < before.len() && valid_parser(#[trigger] before[i]) && registered(
                        m,
                        before,
                    )[key] == before[i] && before[i].abbreviation == key;
                assert(candidates[i] == before[i]);
            }
        }
    }
}

/// The positions of the candidates that break a rule, each with the rule, in
/// order.
pub open spec fn turned_away(candidates: Seq<ParserView>) -> Seq<(usize, ValidationError)>
    decreases candidates.len(),
{
    if candidates.len() == 0 {
        Seq::empty()
    } else {
        let before = turned_away(candidates.drop_last());
        match problem(candidates.last()) {
            Some(e) => before.push(((candidates.len() - 1) as usize, e)),
            None => before,
        }
    }
}

/// Builds the registry from the parsers that were read: each is validated,
/// the valid ones are registered, and the others are reported with their
/// position among the candidates and the rule they break. One bad parser does
/// not keep the others out.
pub fn load_parsers(
    candidates: &Vec<Parser>,
) -> (r: (ParserRegistry, Vec<(usize, ValidationError)>))
    ensures
        r.0@ == registered(Map::empty(), parser_views(candidates@)),
        r.1@ == turned_away(parser_views(candidates@)),
{
    let mut registry = ParserRegistry::new();
    let mut rejected: Vec<(usize, ValidationError)> = Vec::new();
    let mut i: usize = 0;
    let ghost all = parser_views(candidates@);
    assert(all.take(0) =~= Seq::<ParserView>::empty());
    while i < candidates.len()
        invariant
            0 <= i <= candidates.len(),
            all == parser_views(candidates@),
            registry@ == registered(Map::empty(), all.take(i as int)),
            rejected@ == turned_away(all.take(i as int)),
        decreases candidates.len() - i,
    {
        proof {
            assert(all.take(i + 1).drop_last() =~= all.take(i as int));
            assert(all.take(i + 1).last() == candidates[i as int]@);
        }
        match registry.register(candidates[i].clone()) {
            Ok(_) => {},
            Err(e) => {
                rejected.push((i, e));
            },
        }
        i = i + 1;
    }
    assert(all.take(candidates.len() as int) =~= all);
    (registry, rejected)
}

} // verus!
