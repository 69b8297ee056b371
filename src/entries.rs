//! Discovery of applications from desktop-entry files.

use vstd::prelude::*;

verus! {

/// Every `%` together with the character after it (any but a line feed) is
/// removed, scanning from the left; these are the field codes of an `Exec`
/// value.
pub open spec fn without_field_codes(s: Seq<char>) -> Seq<char>
    decreases s.len(),
{
    if s.len() == 0 {
        s
    } else if s[0] == '%' && s.len() >= 2 && s[1] != '\n' {
        without_field_codes(s.subrange(2, s.len() as int))
    } else {
        seq![s[0]] + without_field_codes(s.subrange(1, s.len() as int))
    }
}

/// The pattern that matches one field code.
pub open spec fn field_code_pattern() -> Seq<char> {
    seq!['%', '.']
}

/// Relies on `regex::Regex::new` and `Regex::replace_all` with an empty
/// replacement: the pattern `%.` compiles, and every leftmost non-overlapping
/// match (a `%` and the next character other than a line feed) is removed.
#[verifier::external_body]
fn remove_pattern_matches(pattern: &str, text: &str) -> (r: Option<String>)
    ensures
        pattern@ == field_code_pattern() ==> r is Some && r->0@ == without_field_codes(text@),
{
    regex::Regex::new(pattern).ok().map(|re| re.replace_all(text, "").into_owned())
}

/// Removes the field codes (`%f`, `%U`, ...) from a command line.
pub fn strip_field_codes(line: &str) -> (r: String)
    ensures
        r@ == without_field_codes(line@),
{
    proof {
        reveal_strlit("%.");
        assert("%."@ =~= field_code_pattern());
    }
    match remove_pattern_matches("%.", line) {
        Some(s) => s,
        None => String::new(),
    }
}

/// The icon used when a descriptor names none.
pub open spec fn default_icon() -> Seq<char> {
    seq!['a', 'p', 'p', 'l', 'i', 'c', 'a', 't', 'i', 'o', 'n', 's', '-', 'o', 't', 'h', 'e', 'r']
}

/// The section of a descriptor that describes the application.
pub open spec fn main_section() -> Seq<char> {
    seq!['D', 'e', 's', 'k', 't', 'o', 'p', ' ', 'E', 'n', 't', 'r', 'y']
}

/// The extension of a descriptor file name, dot included.
pub open spec fn descriptor_suffix() -> Seq<char> {
    seq!['.', 'd', 'e', 's', 'k', 't', 'o', 'p']
}

/// The file name has the extension `desktop`: it ends in `.desktop` and that
/// dot is not its first character.
pub open spec fn is_descriptor_name(n: Seq<char>) -> bool {
    n.len() > descriptor_suffix().len() && n.subrange(
        n.len() - descriptor_suffix().len(),
        n.len() as int,
    ) == descriptor_suffix()
}

/// Whether the bytes parse as a desktop entry.
pub uninterp spec fn entry_parses(bytes: Seq<u8>) -> bool;

/// The value of attribute `key` in section `section` of the desktop entry
/// that the bytes hold, if it has one.
pub uninterp spec fn entry_attr(bytes: Seq<u8>, section: Seq<char>, key: Seq<char>) -> Option<
    Seq<char>,
>;

pub open spec fn opt_chars(o: Option<String>) -> Option<Seq<char>> {
    match o {
        Some(s) => Some(s@),
        None => None,
    }
}

/// Relies on `freedesktop_entry_parser::Entry::parse`, for whether the bytes
/// are a desktop entry, and on `AttrSelector::attr`, for the value of each key
/// in the named section.
#[verifier::external_body]
fn read_section_attrs(bytes: &Vec<u8>, section: &str, keys: &Vec<String>) -> (r: Option<
    Vec<Option<String>>,
>)
    ensures
        r is Some <==> entry_parses(bytes@),
        r is Some ==> r->0.len() == keys.len(),
        r is Some ==> forall|i: int|
            0 <= i < keys.len() ==> opt_chars(#[trigger] r->0[i]) == entry_attr(
                bytes@,
                section@,
                keys[i]@,
            ),
{
    freedesktop_entry_parser::Entry::parse(bytes.clone()).ok().map(
        |entry| {
            let selector = entry.section(section);
            keys.iter().map(|k| selector.attr(k).map(|v| v.to_string())).collect()
        },
    )
}

/// One discovered application.
#[derive(Debug, Clone)]
pub struct AppInfo {
    pub name: String,
    pub command: String,
    pub icon: String,
}

/// What an application record holds, as sequences of characters.
pub struct AppRecord {
    pub name: Seq<char>,
    pub command: Seq<char>,
    pub icon: Seq<char>,
}

impl View for AppInfo {
    type V = AppRecord;

    open spec fn view(&self) -> AppRecord {
        AppRecord { name: self.name@, command: self.command@, icon: self.icon@ }
    }
}

/// Why a file of the directory gave no application.
#[derive(Debug, Clone, Copy, PartialEq, Eq, Structural)]
pub enum EntryIssue {
    /// The file could not be read.
    Unreadable,
    /// The file is not a desktop entry.
    Unparsable,
    /// The entry has no `Name`, or an empty one.
    MissingName,
    /// The entry has no `Exec`, or one that is empty once its field codes are removed.
    MissingExec,
}

/// The record built from the `Name`, `Exec` and `Icon` values of a
/// descriptor, or why there is none.
pub open spec fn record_from_attrs(
    name: Option<Seq<char>>,
    cmd: Option<Seq<char>>,
    icon: Option<Seq<char>>,
) -> Result<AppRecord, EntryIssue> {
    match name {
        None => Err(EntryIssue::MissingName),
        Some(n) => if n.len() == 0 {
            Err(EntryIssue::MissingName)
        } else {
            match cmd {
                None => Err(EntryIssue::MissingExec),
                Some(e) => if without_field_codes(e).len() == 0 {
                    Err(EntryIssue::MissingExec)
                } else {
                    Ok(
                        AppRecord {
                            name: n,
                            command: without_field_codes(e),
                            icon: match icon {
                                Some(i) => i,
                                None => default_icon(),
                            },
                        },
                    )
                },
            }
        },
    }
}

pub open spec fn result_view(r: Result<AppInfo, EntryIssue>) -> Result<AppRecord, EntryIssue> {
    match r {
        Ok(a) => Ok(a@),
        Err(e) => Err(e),
    }
}

/// Builds the record of one descriptor from its `Name`, `Exec` and `Icon`
/// values: the name must be there and not empty, the command must be there
/// and not empty once its field codes are removed, and the icon defaults to
/// `applications-other`.
pub fn app_from_attrs(
    name: Option<String>,
    cmd: Option<String>,
    icon: Option<String>,
) -> (r: Result<AppInfo, EntryIssue>)
    ensures
        result_view(r) == record_from_attrs(opt_chars(name), opt_chars(cmd), opt_chars(icon)),
{
    let name = match name {
        Some(n) => n,
        None => {
            return Err(EntryIssue::MissingName);
        },
    };
    if name.as_str().unicode_len() == 0 {
        return Err(EntryIssue::MissingName);
    }
    let command = match cmd {
        Some(e) => strip_field_codes(e.as_str()),
        None => {
            return Err(EntryIssue::MissingExec);
        },
    };
    if command.as_str().unicode_len() == 0 {
        return Err(EntryIssue::MissingExec);
    }
    let icon = match icon {
        Some(i) => i,
        None => {
            proof {
                reveal_strlit("applications-other");
                assert("applications-other"@ =~= default_icon());
            }
            "applications-other".to_owned()
        },
    };
    Ok(AppInfo { name, command, icon })
}

/// Whether a file name has the extension `desktop`.
pub fn is_descriptor_file_name(file_name: &str) -> (r: bool)
    ensures
        r == is_descriptor_name(file_name@),
{
    let suffix = ".desktop";
    proof {
        reveal_strlit(".desktop");
        assert(suffix@ =~= descriptor_suffix());
    }
    let n = file_name.unicode_len();
    let k = suffix.unicode_len();
    if n <= k {
        return false;
    }
    let mut i: usize = 0;
    while i < k
        invariant
            n == file_name@.len(),
            k == suffix@.len(),
            suffix@ == descriptor_suffix(),
            k < n,
            i <= k,
            forall|j: int| 0 <= j < i ==> file_name@[n - k + j] == suffix@[j],
        decreases k - i,
    {
        if file_name.get_char(n - k + i) != suffix.get_char(i) {
            proof {
                assert(file_name@.subrange(n - k, n as int)[i as int] != descriptor_suffix()[i as int]);
            }
            return false;
        }
        i = i + 1;
    }
    proof {
        assert(file_name@.subrange(n - k, n as int) =~= descriptor_suffix());
    }
    true
}

/// A file found in an applications directory, as the caller saw it.
#[derive(Debug, Clone)]
pub struct DescriptorFile {
    /// The file's name within the directory.
    pub file_name: String,
    /// Whether the entry is a directory.
    pub is_dir: bool,
    /// The file's bytes, or `None` where they could not be read.
    pub contents: Option<Vec<u8>>,
}

pub open spec fn name_key() -> Seq<char> {
    seq!['N', 'a', 'm', 'e']
}

pub open spec fn command_key() -> Seq<char> {
    seq!['E', 'x', 'e', 'c']
}

pub open spec fn icon_key() -> Seq<char> {
    seq!['I', 'c', 'o', 'n']
}

/// What one file of the directory gives: `None` where it is skipped without
/// a word (a directory, or another extension), else its record or the issue
/// that kept it out.
pub open spec fn file_outcome(f: DescriptorFile) -> Option<Result<AppRecord, EntryIssue>> {
    if f.is_dir || !is_descriptor_name(f.file_name@) {
        None
    } else {
        match f.contents {
            None => Some(Err(EntryIssue::Unreadable)),
            Some(b) => if !entry_parses(b@) {
                Some(Err(EntryIssue::Unparsable))
            } else {
                Some(
                    record_from_attrs(
                        entry_attr(b@, main_section(), name_key()),
                        entry_attr(b@, main_section(), command_key()),
                        entry_attr(b@, main_section(), icon_key()),
                    ),
                )
            },
        }
    }
}

/// The records that a directory listing gives, in the listing's order.
pub open spec fn scanned(files: Seq<DescriptorFile>) -> Seq<AppRecord>
    decreases files.len(),
{
    if files.len() == 0 {
        Seq::empty()
    } else {
        let prev = scanned(files.drop_last());
        match file_outcome(files.last()) {
            Some(Ok(a)) => prev.push(a),
            _ => prev,
        }
    }
}

/// The files of a directory listing that gave no record, each with its
/// issue, in the listing's order.
pub open spec fn scan_issues(files: Seq<DescriptorFile>) -> Seq<(Seq<char>, EntryIssue)>
    decreases files.len(),
{
    if files.len() == 0 {
        Seq::empty()
    } else {
        let prev = scan_issues(files.drop_last());
        match file_outcome(files.last()) {
            Some(Err(e)) => prev.push((files.last().file_name@, e)),
            _ => prev,
        }
    }
}

/// What a scan of a directory found.
#[derive(Debug, Clone)]
pub struct ScanReport {
    /// The applications, in the listing's order.
    pub apps: Vec<AppInfo>,
    /// The descriptor files that gave none, with the reason.
    pub issues: Vec<(String, EntryIssue)>,
}

pub open spec fn apps_view(apps: Seq<AppInfo>) -> Seq<AppRecord> {
    apps.map_values(|a: AppInfo| a@)
}

pub open spec fn issues_view(issues: Seq<(String, EntryIssue)>) -> Seq<(Seq<char>, EntryIssue)> {
    issues.map_values(|p: (String, EntryIssue)| (p.0@, p.1))
}

/// What one file of a listing gives; see `file_outcome`.
pub fn descriptor_outcome(f: &DescriptorFile) -> (r: Option<Result<AppInfo, EntryIssue>>)
    ensures
        match r {
            None => file_outcome(*f) is None,
            Some(o) => file_outcome(*f) == Some(result_view(o)),
        },
{
    if f.is_dir || !is_descriptor_file_name(f.file_name.as_str()) {
        return None;
    }
    let bytes = match &f.contents {
        Some(b) => b,
        None => {
            return Some(Err(EntryIssue::Unreadable));
        },
    };
    proof {
        reveal_strlit("Desktop Entry");
        reveal_strlit("Name");
        reveal_strlit("Exec");
        reveal_strlit("Icon");
        assert("Desktop Entry"@ =~= main_section());
        assert("Name"@ =~= name_key());
        assert("Exec"@ =~= command_key());
        assert("Icon"@ =~= icon_key());
    }
    let keys = vec!["Name".to_owned(), "Exec".to_owned(), "Icon".to_owned()];
    let attrs = match read_section_attrs(bytes, "Desktop Entry", &keys) {
        Some(a) => a,
        None => {
            return Some(Err(EntryIssue::Unparsable));
        },
    };
    let name = attrs[0].clone();
    let cmd = attrs[1].clone();
    let icon = attrs[2].clone();
    proof {
        assert(opt_chars(attrs[0]) == entry_attr(bytes@, main_section(), name_key()));
        assert(opt_chars(attrs[1]) == entry_attr(bytes@, main_section(), command_key()));
        assert(opt_chars(attrs[2]) == entry_attr(bytes@, main_section(), icon_key()));
    }
    Some(app_from_attrs(name, cmd, icon))
}

/// Scans a directory listing for applications. Directories and files
/// without the `desktop` extension are skipped; each other file gives its
/// record, or an issue where it cannot be read or parsed, has no name, or no
/// command.
pub fn get_entries(files: &Vec<DescriptorFile>) -> (r: ScanReport)
    ensures
        apps_view(r.apps@) == scanned(files@),
        issues_view(r.issues@) == scan_issues(files@),
{
    let mut apps: Vec<AppInfo> = Vec::new();
    let mut issues: Vec<(String, EntryIssue)> = Vec::new();
    let mut i: usize = 0;
    while i < files.len()
        invariant
            i <= files.len(),
            apps_view(apps@) == scanned(files@.subrange(0, i as int)),
            issues_view(issues@) == scan_issues(files@.subrange(0, i as int)),
        decreases files.len() - i,
    {
        let ghost before = files@.subrange(0, i as int);
        let ghost after = files@.subrange(0, i + 1);
        assert(after.drop_last() =~= before);
        assert(after.last() == files@[i as int]);
        match descriptor_outcome(&files[i]) {
            Some(Ok(a)) => {
                let ghost prev = apps@;
                apps.push(a);
                assert(apps_view(apps@) =~= apps_view(prev).push(a@));
            },
            Some(Err(e)) => {
                let ghost prev = issues@;
                issues.push((files[i].file_name.clone(), e));
                assert(issues_view(issues@) =~= issues_view(prev).push((files@[i as int].file_name@, e)));
            },
            None => {},
        }
        i = i + 1;
    }
    assert(files@.subrange(0, files.len() as int) =~= files@);
    ScanReport { apps, issues }
}

/// No record that a scan gives has an empty name or an empty command.
pub proof fn lemma_scan_records_nonempty(files: Seq<DescriptorFile>)
    ensures
        forall|i: int|
            0 <= i < scanned(files).len() ==> (#[trigger] scanned(files)[i]).name.len() > 0
                && scanned(files)[i].command.len() > 0,
    decreases files.len(),
{
    if files.len() > 0 {
        let prev = scanned(files.drop_last());
        lemma_scan_records_nonempty(files.drop_last());
        if let Some(Ok(a)) = file_outcome(files.last()) {
            assert(scanned(files) == prev.push(a));
            assert(a.name.len() > 0 && a.command.len() > 0);
        }
    }
}

/// A descriptor without an `Icon` attribute that gives a record gives one
/// with the icon `applications-other`.
pub proof fn lemma_missing_icon_defaults(f: DescriptorFile)
    requires
        f.contents matches Some(b) && entry_attr(b@, main_section(), icon_key()) is None,
    ensures
        file_outcome(f) matches Some(Ok(a)) ==> a.icon == default_icon(),
{
}

/// Once the field codes are removed, every `%` left is the last character
/// or stands before a line feed: no field code is left.
pub proof fn lemma_no_field_code_left(s: Seq<char>)
    ensures
        forall|i: int|
            0 <= i < without_field_codes(s).len() - 1 && #[trigger] without_field_codes(s)[i]
                == '%' ==> without_field_codes(s)[i + 1] == '\n',
    decreases s.len(),
{
    if s.len() == 0 {
    } else if s[0] == '%' && s.len() >= 2 && s[1] != '\n' {
        lemma_no_field_code_left(s.subrange(2, s.len() as int));
        assert(without_field_codes(s) == without_field_codes(s.subrange(2, s.len() as int)));
    } else {
        let t = s.subrange(1, s.len() as int);
        lemma_no_field_code_left(t);
        let r = without_field_codes(s);
        assert(r == seq![s[0]] + without_field_codes(t));
        if t.len() > 0 {
            assert(t[0] != '%' ==> without_field_codes(t) == seq![t[0]] + without_field_codes(
                t.subrange(1, t.len() as int),
            ));
        }
        assert forall|i: int|
            0 <= i < r.len() - 1 && #[trigger] r[i] == '%' implies r[i + 1] == '\n' by {
            if i > 0 {
                assert(r[i] == without_field_codes(t)[i - 1]);
                assert(r[i + 1] == without_field_codes(t)[i]);
            } else {
                assert(s.len() >= 2);
                assert(t[0] == '\n');
                assert(without_field_codes(t) == seq![t[0]] + without_field_codes(
                    t.subrange(1, t.len() as int),
                ));
                assert(r[1] == without_field_codes(t)[0]);
            }
        }
    }
}

} // verus!
