//! The text frames between server and clients: a command's name, a space, and
//! JSON; and the errors that the server reports in such frames.

use vstd::prelude::*;
use crate::auth::{hash_check, validate_hash, AuthCheck, AuthCheckView};
use crate::library::Library;
use crate::text::{
    chars_of, index_of, lemma_index_of, optional_str, same_text, slice_chars, string_of,
    string_views,
};

verus! {

/// The commands that a client can send.
#[derive(Debug, PartialEq, Eq, Structural, Clone, Copy)]
pub enum Command {
    UserAuth,
    LoadSettings,
    WriteSettings,
    SetSetting,
    LoadLibrary,
    UpdateLibrary,
    LoadMetadata,
    RefreshMetadata,
    SaveMetadata,
    SaveParsers,
    DeleteParser,
    AddExtraFile,
    DeleteExtraFile,
    ParseRom,
    FilePicker,
    AvailableStorage,
    IsValidGlob,
    Demo,
}

/// The name of a command on the wire.
pub open spec fn name_of(command: Command) -> Seq<char> {
    match command {
        Command::UserAuth => "user_auth"@,
        Command::LoadSettings => "load_settings"@,
        Command::WriteSettings => "write_settings"@,
        Command::SetSetting => "set_setting"@,
        Command::LoadLibrary => "load_library"@,
        Command::UpdateLibrary => "update_library"@,
        Command::LoadMetadata => "load_metadata"@,
        Command::RefreshMetadata => "refresh_metadata"@,
        Command::SaveMetadata => "save_metadata"@,
        Command::SaveParsers => "save_parsers"@,
        Command::DeleteParser => "delete_parser"@,
        Command::AddExtraFile => "add_extra_file"@,
        Command::DeleteExtraFile => "delete_extra_file"@,
        Command::ParseRom => "parse_rom"@,
        Command::FilePicker => "file_picker"@,
        Command::AvailableStorage => "available_storage"@,
        Command::IsValidGlob => "is_valid_glob"@,
        Command::Demo => "demo"@,
    }
}

/// The command with the name `name`, if there is one.
pub open spec fn command_of(name: Seq<char>) -> Option<Command> {
    if name == "user_auth"@ {
        Some(Command::UserAuth)
    } else if name == "load_settings"@ {
        Some(Command::LoadSettings)
    } else if name == "write_settings"@ {
        Some(Command::WriteSettings)
    } else if name == "set_setting"@ {
        Some(Command::SetSetting)
    } else if name == "load_library"@ {
        Some(Command::LoadLibrary)
    } else if name == "update_library"@ {
        Some(Command::UpdateLibrary)
    } else if name == "load_metadata"@ {
        Some(Command::LoadMetadata)
    } else if name == "refresh_metadata"@ {
        Some(Command::RefreshMetadata)
    } else if name == "save_metadata"@ {
        Some(Command::SaveMetadata)
    } else if name == "save_parsers"@ {
        Some(Command::SaveParsers)
    } else if name == "delete_parser"@ {
        Some(Command::DeleteParser)
    } else if name == "add_extra_file"@ {
        Some(Command::AddExtraFile)
    } else if name == "delete_extra_file"@ {
        Some(Command::DeleteExtraFile)
    } else if name == "parse_rom"@ {
        Some(Command::ParseRom)
    } else if name == "file_picker"@ {
        Some(Command::FilePicker)
    } else if name == "available_storage"@ {
        Some(Command::AvailableStorage)
    } else if name == "is_valid_glob"@ {
        Some(Command::IsValidGlob)
    } else if name == "demo"@ {
        Some(Command::Demo)
    } else {
        None
    }
}

/// The names of the commands are told apart by their length, their first
/// character, or their sixth.
proof fn lemma_names_known()
    ensures
        "user_auth"@.len() == 9,
        "user_auth"@[0] == 'u',
        "load_settings"@.len() == 13,
        "load_settings"@[0] == 'l',
        "write_settings"@.len() == 14,
        "write_settings"@[0] == 'w',
        "set_setting"@.len() == 11,
        "set_setting"@[0] == 's',
        "load_library"@.len() == 12,
        "load_library"@[0] == 'l',
        "update_library"@.len() == 14,
        "update_library"@[0] == 'u',
        "load_metadata"@.len() == 13,
        "load_metadata"@[0] == 'l',
        "refresh_metadata"@.len() == 16,
        "refresh_metadata"@[0] == 'r',
        "save_metadata"@.len() == 13,
        "save_metadata"@[0] == 's',
        "save_parsers"@.len() == 12,
        "save_parsers"@[0] == 's',
        "delete_parser"@.len() == 13,
        "delete_parser"@[0] == 'd',
        "add_extra_file"@.len() == 14,
        "add_extra_file"@[0] == 'a',
        "delete_extra_file"@.len() == 17,
        "delete_extra_file"@[0] == 'd',
        "parse_rom"@.len() == 9,
        "parse_rom"@[0] == 'p',
        "file_picker"@.len() == 11,
        "file_picker"@[0] == 'f',
        "available_storage"@.len() == 17,
        "available_storage"@[0] == 'a',
        "is_valid_glob"@.len() == 13,
        "is_valid_glob"@[0] == 'i',
        "demo"@.len() == 4,
        "demo"@[0] == 'd',
        "load_settings"@[5] == 's',
        "load_metadata"@[5] == 'm',
{
    reveal_strlit("user_auth");
    reveal_strlit("load_settings");
    reveal_strlit("write_settings");
    reveal_strlit("set_setting");
    reveal_strlit("load_library");
    reveal_strlit("update_library");
    reveal_strlit("load_metadata");
    reveal_strlit("refresh_metadata");
    reveal_strlit("save_metadata");
    reveal_strlit("save_parsers");
    reveal_strlit("delete_parser");
    reveal_strlit("add_extra_file");
    reveal_strlit("delete_extra_file");
    reveal_strlit("parse_rom");
    reveal_strlit("file_picker");
    reveal_strlit("available_storage");
    reveal_strlit("is_valid_glob");
    reveal_strlit("demo");
}

/// Every command is found again by its name.
pub proof fn lemma_command_names(command: Command)
    ensures
        command_of(name_of(command)) == Some(command),
{
    lemma_names_known();
}

/// The name of a command on the wire.
pub fn command_name(command: Command) -> (name: &'static str)
    ensures
        name@ == name_of(command),
{
    match command {
        Command::UserAuth => "user_auth",
        Command::LoadSettings => "load_settings",
        Command::WriteSettings => "write_settings",
        Command::SetSetting => "set_setting",
        Command::LoadLibrary => "load_library",
        Command::UpdateLibrary => "update_library",
        Command::LoadMetadata => "load_metadata",
        Command::RefreshMetadata => "refresh_metadata",
        Command::SaveMetadata => "save_metadata",
        Command::SaveParsers => "save_parsers",
        Command::DeleteParser => "delete_parser",
        Command::AddExtraFile => "add_extra_file",
        Command::DeleteExtraFile => "delete_extra_file",
        Command::ParseRom => "parse_rom",
        Command::FilePicker => "file_picker",
        Command::AvailableStorage => "available_storage",
        Command::IsValidGlob => "is_valid_glob",
        Command::Demo => "demo",
    }
}

/// The command with the name `name`; none for a name that the server does
/// not know, which it passes over.
pub fn parse_command(name: &str) -> (r: Option<Command>)
    ensures
        r == command_of(name@),
{
    if same_text(name, "user_auth") {
        Some(Command::UserAuth)
    } else if same_text(name, "load_settings") {
        Some(Command::LoadSettings)
    } else if same_text(name, "write_settings") {
        Some(Command::WriteSettings)
    } else if same_text(name, "set_setting") {
        Some(Command::SetSetting)
    } else if same_text(name, "load_library") {
        Some(Command::LoadLibrary)
    } else if same_text(name, "update_library") {
        Some(Command::UpdateLibrary)
    } else if same_text(name, "load_metadata") {
        Some(Command::LoadMetadata)
    } else if same_text(name, "refresh_metadata") {
        Some(Command::RefreshMetadata)
    } else if same_text(name, "save_metadata") {
        Some(Command::SaveMetadata)
    } else if same_text(name, "save_parsers") {
        Some(Command::SaveParsers)
    } else if same_text(name, "delete_parser") {
        Some(Command::DeleteParser)
    } else if same_text(name, "add_extra_file") {
        Some(Command::AddExtraFile)
    } else if same_text(name, "delete_extra_file") {
        Some(Command::DeleteExtraFile)
    } else if same_text(name, "parse_rom") {
        Some(Command::ParseRom)
    } else if same_text(name, "file_picker") {
        Some(Command::FilePicker)
    } else if same_text(name, "available_storage") {
        Some(Command::AvailableStorage)
    } else if same_text(name, "is_valid_glob") {
        Some(Command::IsValidGlob)
    } else if same_text(name, "demo") {
        Some(Command::Demo)
    } else {
        None
    }
}

/// Whether the client has to prove that it knows the password before the
/// command is carried out: every command but the one that logs the user in.
pub fn needs_password(command: Command) -> (r: bool)
    ensures
        r == (command != Command::UserAuth),
{
    match command {
        Command::UserAuth => false,
        _ => true,
    }
}

/// The two parts of a frame: what stands before its first space, and what
/// stands after it. A text without a space is no frame.
pub open spec fn frame_parts(text: Seq<char>) -> Option<(Seq<char>, Seq<char>)> {
    let i = index_of(text, ' ');
    if 0 <= i < text.len() {
        Some((text.take(i), text.skip(i + 1)))
    } else {
        None
    }
}

/// The frame with the name `name` and the payload `payload`.
pub open spec fn framed(name: Seq<char>, payload: Seq<char>) -> Seq<char> {
    name + seq![' '] + payload
}

/// JSON with `value` under the key `data`.
pub open spec fn enveloped(value: Seq<char>) -> Seq<char> {
    "{\"data\":"@ + value + "}"@
}

/// A frame whose name holds no space comes apart into the name and the
/// payload it was made of.
pub proof fn lemma_frame_parts(name: Seq<char>, payload: Seq<char>)
    requires
        !name.contains(' '),
    ensures
        frame_parts(framed(name, payload)) == Some((name, payload)),
{
    let text = framed(name, payload);
    assert forall|k: int| 0 <= k < name.len() implies text[k] != ' ' by {
        if name[k] == ' ' {
            assert(name.contains(' '));
        }
    }
    lemma_index_of(text, ' ', name.len() as int);
    assert(text.take(name.len() as int) =~= name);
    assert(text.skip(name.len() as int + 1) =~= payload);
}

/// Takes a frame apart into its name and its payload.
pub fn split_frame(text: &str) -> (r: Option<(String, String)>)
    ensures
        match r {
            Some((name, payload)) => frame_parts(text@) == Some((name@, payload@)),
            None => frame_parts(text@) is None,
        },
{
    let chars = chars_of(text);
    let mut i: usize = 0;
    while i < chars.len()
        invariant
            0 <= i <= chars.len(),
            chars@ == text@,
            forall|k: int| 0 <= k < i ==> chars@[k] != ' ',
        decreases chars.len() - i,
    {
        if chars[i] == ' ' {
            proof {
                lemma_index_of(chars@, ' ', i as int);
            }
            let name = slice_chars(&chars, 0, i);
            let payload = slice_chars(&chars, i + 1, chars.len());
            assert(name@ =~= chars@.take(i as int));
            assert(payload@ =~= chars@.skip(i + 1));
            return Some((string_of(&name), string_of(&payload)));
        }
        i = i + 1;
    }
    proof {
        lemma_index_of(chars@, ' ', chars.len() as int);
    }
    None
}

/// Puts a frame together.
pub fn frame(name: &str, payload: &str) -> (r: String)
    ensures
        r@ == framed(name@, payload@),
{
    let mut r = name.to_owned();
    proof {
        reveal_strlit(" ");
        assert(" "@ =~= seq![' ']);
    }
    r.append(" ");
    r.append(payload);
    r
}

/// Wraps the JSON text `value` under the key `data`.
pub fn envelope(value: &str) -> (r: String)
    ensures
        r@ == enveloped(value@),
{
    let mut r = String::from_str("{\"data\":");
    r.append(value);
    r.append("}");
    r
}

/// The reply to a command: the command's name, and the JSON text `value`
/// under the key `data`.
pub fn reply(name: &str, value: &str) -> (r: String)
    ensures
        r@ == framed(name@, enveloped(value@)),
{
    let body = envelope(value);
    frame(name, body.as_str())
}

/// How bad an error is.
#[derive(Debug, PartialEq, Eq, Structural, Clone, Copy)]
pub enum BackendErrorType {
    /// The server carries on; the error is only logged.
    WARN,
    /// The server carries on; the user is told how to mend things.
    PANIC,
}

impl BackendErrorType {
    /// The number that stands for the kind on the wire.
    pub open spec fn spec_code(self) -> usize {
        match self {
            BackendErrorType::WARN => 0,
            BackendErrorType::PANIC => 1,
        }
    }

    /// The number that stands for the kind on the wire.
    #[verifier::when_used_as_spec(spec_code)]
    pub fn code(self) -> (r: usize)
        ensures
            r == self.spec_code(),
    {
        match self {
            BackendErrorType::WARN => 0,
            BackendErrorType::PANIC => 1,
        }
    }

    /// The name of the kind on the wire.
    pub fn name(self) -> (r: &'static str)
        ensures
            r@ == (match self {
                BackendErrorType::WARN => "WARN"@,
                BackendErrorType::PANIC => "PANIC"@,
            }),
    {
        match self {
            BackendErrorType::WARN => "WARN",
            BackendErrorType::PANIC => "PANIC",
        }
    }
}

/// An error that the server reports to its clients.
#[derive(Debug, PartialEq, Eq)]
pub struct BackendError {
    /// What went wrong.
    pub message: String,
    /// What the user can do about it.
    pub fix: String,
    pub error_type: BackendErrorType,
}

/// Name of the frame that carries an error.
pub const BACKEND_ERROR: &'static str = "backend_error";

/// Name of the frame that tells a client that its password digest is wrong.
pub const HASH_MISMATCH: &'static str = "hash_mismatch";

/// Name of the frame that tells the clients that an environment variable is
/// not set.
pub const MISSING_ENV_VARIABLE: &'static str = "missing_env_variable";

/// `a`, then `b`, then `c`.
fn three(a: &str, b: &str, c: &str) -> (r: String)
    ensures
        r@ == a@ + b@ + c@,
{
    let mut r = a.to_owned();
    r.append(b);
    r.append(c);
    r
}

/// The error for a library whose ROM directory cannot be read.
pub fn library_unreadable(library: &Library, reason: &str) -> (e: BackendError)
    ensures
        e.message@ == "Failed to load library: "@ + reason@,
        e.fix@ == "Please double check that there is a library mounted to \""@
            + library.library_path@ + "\"."@,
        e.error_type == BackendErrorType::WARN,
{
    let mut message = String::from_str("Failed to load library: ");
    message.append(reason);
    BackendError {
        message,
        fix: three(
            "Please double check that there is a library mounted to \"",
            library.library_path.as_str(),
            "\".",
        ),
        error_type: BackendErrorType::WARN,
    }
}

/// The error for a parsers directory that cannot be read.
pub fn parsers_unreadable(parsers_dir: &str, reason: &str) -> (e: BackendError)
    ensures
        e.message@ == "Failed to load parsers: "@ + reason@,
        e.fix@ == "Please double check that \""@ + parsers_dir@ + "\" is readable."@,
        e.error_type == BackendErrorType::PANIC,
{
    let mut message = String::from_str("Failed to load parsers: ");
    message.append(reason);
    BackendError {
        message,
        fix: three("Please double check that \"", parsers_dir, "\" is readable."),
        error_type: BackendErrorType::PANIC,
    }
}

/// The error for an extras directory that cannot be read.
pub fn extras_unreadable(reason: &str) -> (e: BackendError)
    ensures
        e.message@ == "Failed to load extras: "@ + reason@,
        e.fix@ == "Please double check that there your extras directory is readable."@,
        e.error_type == BackendErrorType::WARN,
{
    let mut message = String::from_str("Failed to load extras: ");
    message.append(reason);
    BackendError {
        message,
        fix: String::from_str("Please double check that there your extras directory is readable."),
        error_type: BackendErrorType::WARN,
    }
}

/// The error for an added ROM that no pattern of its system's parser matches.
pub fn rom_unmatched(parser_name: &str) -> (e: BackendError)
    ensures
        e.message@ == "Adding ROM: ROM should have matched on of the parsers for system \""@
            + parser_name@ + "\"."@,
        e.fix@ == "Please double check that there is a parser for system \""@ + parser_name@
            + "\"."@,
        e.error_type == BackendErrorType::WARN,
{
    BackendError {
        message: three(
            "Adding ROM: ROM should have matched on of the parsers for system \"",
            parser_name,
            "\".",
        ),
        fix: three("Please double check that there is a parser for system \"", parser_name, "\"."),
        error_type: BackendErrorType::WARN,
    }
}

/// The space of one disk.
#[derive(Debug, PartialEq, Eq, Structural, Clone, Copy)]
pub struct DiskSpace {
    pub available: u64,
    pub total: u64,
}

/// The space of all disks together.
#[derive(Debug, PartialEq, Eq, Structural, Clone, Copy)]
pub struct AvailableStorage {
    pub used_space: u64,
    pub total_space: u64,
}

/// The available bytes of all `disks` together.
pub open spec fn available_sum(disks: Seq<DiskSpace>) -> int
    decreases disks.len(),
{
    if disks.len() == 0 {
        0
    } else {
        available_sum(disks.drop_last()) + disks.last().available
    }
}

/// The bytes of all `disks` together.
pub open spec fn total_sum(disks: Seq<DiskSpace>) -> int
    decreases disks.len(),
{
    if disks.len() == 0 {
        0
    } else {
        total_sum(disks.drop_last()) + disks.last().total
    }
}

/// `n` where it fits in 64 bits without a sign; the nearest such number
/// otherwise.
pub open spec fn capped(n: int) -> u64 {
    if n > u64::MAX {
        u64::MAX
    } else if n < 0 {
        0
    } else {
        n as u64
    }
}

/// The space of all disks together: what is used is what is not available.
/// Sums that do not fit in 64 bits stop at the largest 64-bit number.
pub fn storage_summary(disks: &Vec<DiskSpace>) -> (r: AvailableStorage)
    ensures
        r.total_space == capped(total_sum(disks@)),
        r.used_space == capped(
            capped(total_sum(disks@)) - capped(available_sum(disks@)),
        ),
{
    let mut available: u64 = 0;
    let mut total: u64 = 0;
    let mut i: usize = 0;
    assert(disks@.take(0) =~= Seq::<DiskSpace>::empty());
    while i < disks.len()
        invariant
            0 <= i <= disks.len(),
            available_sum(disks@.take(i as int)) >= 0,
            total_sum(disks@.take(i as int)) >= 0,
            available == capped(available_sum(disks@.take(i as int))),
            total == capped(total_sum(disks@.take(i as int))),
        decreases disks.len() - i,
    {
        proof {
            assert(disks@.take(i + 1).drop_last() =~= disks@.take(i as int));
            assert(disks@.take(i + 1).last() == disks@[i as int]);
        }
        let disk = disks[i];
        available = if disk.available > u64::MAX - available {
            u64::MAX
        } else {
            available + disk.available
        };
        total = if disk.total > u64::MAX - total {
            u64::MAX
        } else {
            total + disk.total
        };
        i = i + 1;
    }
    assert(disks@.take(disks.len() as int) =~= disks@);
    let used = if available > total {
        0
    } else {
        total - available
    };
    AvailableStorage { used_space: used, total_space: total }
}

/// Whether a command goes ahead.
#[derive(Debug, PartialEq, Eq)]
pub enum Clearance {
    /// The command is carried out.
    Granted,
    /// The command is dropped, and these frames are sent to the clients.
    Denied(Vec<String>),
}

/// Whether a command goes ahead, as mathematical values.
pub enum ClearanceView {
    Granted,
    Denied(Seq<Seq<char>>),
}

impl View for Clearance {
    type V = ClearanceView;

    open spec fn view(&self) -> ClearanceView {
        match self {
            Clearance::Granted => ClearanceView::Granted,
            Clearance::Denied(frames) => ClearanceView::Denied(string_views(frames@)),
        }
    }
}

/// The frame that tells a client that its password digest is wrong.
pub open spec fn mismatch_frame() -> Seq<char> {
    framed(HASH_MISMATCH@, enveloped("\"\""@))
}

/// The frame that tells the clients that the variable `variable` is not set.
pub open spec fn missing_frame(variable: Seq<char>) -> Seq<char> {
    framed(MISSING_ENV_VARIABLE@, variable)
}

/// What becomes of a command, given the outcome of the check of the password
/// digest that came with it: the command that logs the user in always goes
/// ahead; any other command goes ahead only with a valid digest. A command
/// that is dropped is answered with a frame about the wrong digest, after a
/// frame about the variable that is not set where one is not.
pub open spec fn clearance(command: Command, check: AuthCheckView) -> ClearanceView {
    if command == Command::UserAuth || check.valid {
        ClearanceView::Granted
    } else {
        match check.missing_variable {
            Some(variable) => ClearanceView::Denied(
                seq![missing_frame(variable), mismatch_frame()],
            ),
            None => ClearanceView::Denied(seq![mismatch_frame()]),
        }
    }
}

/// Decides whether a command goes ahead, given the outcome of the check of
/// the password digest that came with it.
pub fn clear(command: Command, check: &AuthCheck) -> (r: Clearance)
    ensures
        r@ == clearance(command, check@),
{
    if !needs_password(command) || check.valid {
        return Clearance::Granted;
    }
    let mut frames: Vec<String> = Vec::new();
    match &check.missing_variable {
        Some(variable) => {
            frames.push(frame(MISSING_ENV_VARIABLE, variable.as_str()));
        },
        None => {},
    }
    frames.push(reply(HASH_MISMATCH, "\"\""));
    proof {
        let views = string_views(frames@);
        if check.missing_variable is Some {
            assert(views =~= seq![missing_frame(check.missing_variable->0@), mismatch_frame()]);
        } else {
            assert(views =~= seq![mismatch_frame()]);
        }
    }
    Clearance::Denied(frames)
}

/// Decides whether a command goes ahead: checks the password digest that
/// came with it against the configured password, which is absent where its
/// variable is not set.
pub fn check_hash(command: Command, password_hash: &str, password: Option<&str>) -> (r: Clearance)
    ensures
        r@ == clearance(
            command,
            hash_check(password_hash@, optional_str(password)),
        ),
{
    let check = validate_hash(password_hash, password);
    clear(command, &check)
}

} // verus!
