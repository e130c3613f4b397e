//! The settings of the task runner itself.

use crate::engine::shell::{join_in, path_joined};
use vstd::prelude::*;

verus! {

#[verifier::external_type_specification]
#[verifier::external_body]
pub struct ExDocumentMut(toml_edit::DocumentMut);

#[verifier::external_type_specification]
#[verifier::external_body]
pub struct ExTomlError(toml_edit::TomlError);

/// The boolean values that stand at the top level of a document, by key:
/// those of its root where the root is a table, none where it is not.
pub uninterp spec fn top_level_bools(doc: toml_edit::DocumentMut) -> Map<Seq<char>, bool>;

/// The boolean values at the top level of the document that
/// `DocumentMut::from_str` reads from `content`; none where it reads no
/// document.
pub uninterp spec fn document_bools(content: Seq<char>) -> Option<Map<Seq<char>, bool>>;

/// `DocumentMut::from_str`: reads `content` as a document, or says why
/// it is none.
#[verifier::external_body]
fn parse_document(content: &str) -> (r: Result<toml_edit::DocumentMut, toml_edit::TomlError>)
    ensures
        match r {
            Ok(doc) => document_bools(content@) == Some(top_level_bools(doc)),
            Err(_) => document_bools(content@) is None,
        },
{
    content.parse::<toml_edit::DocumentMut>()
}

/// `Table::get` on the root of the document, then `Item::as_bool`: the
/// boolean that stands under `key` at the top level, if one does. The
/// root is reached through `DocumentMut::as_item` and `Item::as_table`,
/// which give no table, and so no boolean, where the root is none.
#[verifier::external_body]
fn get_bool(doc: &toml_edit::DocumentMut, key: &str) -> (r: Option<bool>)
    ensures
        r == (if top_level_bools(*doc).dom().contains(key@) {
            Some(top_level_bools(*doc)[key@])
        } else {
            None
        }),
{
    match doc.as_item().as_table() {
        Some(root) => match root.get(key) {
            Some(item) => item.as_bool(),
            None => None,
        },
        None => None,
    }
}

/// A setting: its key, what it is for, and its value where none is set.
#[derive(Clone, Copy, Debug)]
pub struct SettingEntry {
    pub key: &'static str,
    pub description: &'static str,
    pub default: bool,
}

/// The settings that there are, in the order in which they are shown.
pub fn all_settings() -> (r: Vec<SettingEntry>)
    ensures
        r@.len() == 1,
        r@[0].key@ == "show_hints"@,
        r@[0].description@ == "Show helpful tips and suggestions"@,
        r@[0].default,
{
    let mut r: Vec<SettingEntry> = Vec::new();
    r.push(
        SettingEntry {
            key: "show_hints",
            description: "Show helpful tips and suggestions",
            default: true,
        },
    );
    r
}

/// The settings in force.
#[derive(Debug)]
pub struct Settings {
    /// Whether tips are shown.
    pub show_hints: bool,
}

impl Default for Settings {
    fn default() -> (r: Self)
        ensures
            r.show_hints,
    {
        Settings { show_hints: true }
    }
}

/// The value of the setting `key` in the document `doc`: the boolean
/// that stands under `key`, if one does, and whether one does;
/// `default` otherwise, and where there is no document.
pub open spec fn value_in(
    doc: Option<toml_edit::DocumentMut>,
    key: Seq<char>,
    default: bool,
) -> (bool, bool) {
    match doc {
        Some(d) => if top_level_bools(d).dom().contains(key) {
            (top_level_bools(d)[key], true)
        } else {
            (default, false)
        },
        None => (default, false),
    }
}

/// The value of a setting and whether the user has set it: the boolean
/// `found` under its key where one was found, else `default`.
pub open spec fn value_found(found: Option<bool>, default: bool) -> (bool, bool) {
    match found {
        Some(b) => (b, true),
        None => (default, false),
    }
}

/// Tells the value of a setting from what was found under its key, and
/// whether the user has set it.
pub fn setting_value(found: Option<bool>, default: bool) -> (r: (bool, bool))
    ensures
        r == value_found(found, default),
{
    match found {
        Some(b) => (b, true),
        None => (default, false),
    }
}

/// The settings that the document `doc` holds; the defaults where there
/// is no document.
fn settings_of(doc: Option<&toml_edit::DocumentMut>) -> (r: Settings)
    ensures
        r.show_hints == value_in(
            match doc {
                Some(d) => Some(*d),
                None => None,
            },
            "show_hints"@,
            true,
        ).0,
{
    let found = match doc {
        Some(d) => get_bool(d, "show_hints"),
        None => None,
    };
    Settings { show_hints: setting_value(found, true).0 }
}

/// The value of the setting `key` in the text `content` of the settings
/// file, and whether the file sets it: `default` holds where the file
/// could not be read, where it is no document, and where it does not set
/// the key to a boolean.
pub open spec fn value_of(content: Option<Seq<char>>, key: Seq<char>, default: bool) -> (
    bool,
    bool,
) {
    match content {
        Some(c) => match document_bools(c) {
            Some(bools) => if bools.dom().contains(key) {
                (bools[key], true)
            } else {
                (default, false)
            },
            None => (default, false),
        },
        None => (default, false),
    }
}

/// The settings that the text `content` of the settings file holds. The
/// defaults hold where the file could not be read, where it is no
/// document, and for what it leaves unset.
pub fn load(content: Option<&str>) -> (r: Settings)
    ensures
        r.show_hints == value_of(
            match content {
                Some(c) => Some(c@),
                None => None,
            },
            "show_hints"@,
            true,
        ).0,
{
    match content {
        Some(c) => match parse_document(c) {
            Ok(doc) => settings_of(Some(&doc)),
            Err(_) => settings_of(None),
        },
        None => settings_of(None),
    }
}

/// A setting as it is shown: its key, its value, and whether the user
/// has set it.
#[derive(Debug)]
pub struct RawSetting {
    pub key: &'static str,
    pub value: bool,
    pub is_user_set: bool,
}

/// Every setting with its value in the document `doc` and whether the
/// document sets it.
fn raw_of(doc: Option<&toml_edit::DocumentMut>) -> (r: Vec<RawSetting>)
    ensures
        r@.len() == 1,
        r@[0].key@ == "show_hints"@,
        (r@[0].value, r@[0].is_user_set) == value_in(
            match doc {
                Some(d) => Some(*d),
                None => None,
            },
            "show_hints"@,
            true,
        ),
{
    let entries = all_settings();
    let mut r: Vec<RawSetting> = Vec::new();
    let mut i: usize = 0;
    while i < entries.len()
        invariant
            i <= entries.len(),
            entries@.len() == 1,
            entries@[0].key@ == "show_hints"@,
            entries@[0].default,
            r@.len() == i,
            i == 1 ==> r@[0].key@ == "show_hints"@ && (r@[0].value, r@[0].is_user_set) == value_in(
                match doc {
                    Some(d) => Some(*d),
                    None => None,
                },
                "show_hints"@,
                true,
            ),
        decreases entries.len() - i,
    {
        let entry = entries[i];
        let found = match doc {
            Some(d) => get_bool(d, entry.key),
            None => None,
        };
        let (value, is_user_set) = setting_value(found, entry.default);
        r.push(RawSetting { key: entry.key, value, is_user_set });
        i += 1;
    }
    r
}

/// Every setting with its value in the text `content` of the settings
/// file and whether the file sets it.
pub fn load_raw(content: Option<&str>) -> (r: Vec<RawSetting>)
    ensures
        r@.len() == 1,
        r@[0].key@ == "show_hints"@,
        (r@[0].value, r@[0].is_user_set) == value_of(
            match content {
                Some(c) => Some(c@),
                None => None,
            },
            "show_hints"@,
            true,
        ),
{
    match content {
        Some(c) => match parse_document(c) {
            Ok(doc) => raw_of(Some(&doc)),
            Err(_) => raw_of(None),
        },
        None => raw_of(None),
    }
}

/// The first `n` of `values` as lines `key = value`.
pub open spec fn settings_lines(values: Seq<(String, bool)>, n: int) -> Seq<char>
    decreases n,
{
    if n <= 0 {
        Seq::empty()
    } else {
        settings_lines(values, n - 1) + (if n > 1 {
            "\n"@
        } else {
            Seq::empty()
        }) + values[n - 1].0@ + " = "@ + (if values[n - 1].1 {
            "true"@
        } else {
            "false"@
        })
    }
}

/// The text of a settings file that holds `values`: a line `key = value`
/// for each, and a line feed at the end.
pub fn settings_text(values: &Vec<(String, bool)>) -> (r: String)
    ensures
        r@ == settings_lines(values@, values@.len() as int) + "\n"@,
{
    let mut r = String::new();
    let mut i: usize = 0;
    while i < values.len()
        invariant
            i <= values.len(),
            r@ == settings_lines(values@, i as int),
        decreases values.len() - i,
    {
        let ghost before = r@;
        if i > 0 {
            r.append("\n");
        } else {
            assert(r@ + Seq::<char>::empty() =~= r@);
        }
        r.append(values[i].0.as_str());
        r.append(" = ");
        if values[i].1 {
            r.append("true");
        } else {
            r.append("false");
        }
        i += 1;
    }
    r.append("\n");
    r
}

/// The directory of the task runner's own files: `from_env`, the value
/// of the variable that names it, where that is set, else `.plz` in the
/// user's home directory `home`.
pub fn config_dir(from_env: Option<String>, home: Option<&str>) -> (r: Option<String>)
    ensures
        match from_env {
            Some(d) => r == Some(d),
            None => match home {
                Some(h) => r is Some && r->0@ == path_joined(h@, ".plz"@),
                None => r is None,
            },
        },
{
    match from_env {
        Some(d) => Some(d),
        None => match home {
            Some(h) => Some(join_in(h, ".plz")),
            None => None,
        },
    }
}

/// Where the settings file lies: `settings.toml` in the directory of the
/// task runner's own files.
pub fn settings_path(config_dir: Option<&str>) -> (r: Option<String>)
    ensures
        match config_dir {
            Some(d) => r is Some && r->0@ == path_joined(d@, "settings.toml"@),
            None => r is None,
        },
{
    match config_dir {
        Some(d) => Some(join_in(d, "settings.toml")),
        None => None,
    }
}

/// Whether the position `i` is among `selected`.
pub open spec fn is_selected(selected: Seq<usize>, i: int) -> bool {
    exists|k: int| 0 <= k < selected.len() && #[trigger] selected[k] == i
}

fn selects(selected: &Vec<usize>, i: usize) -> (r: bool)
    ensures
        r == is_selected(selected@, i as int),
{
    let mut k: usize = 0;
    while k < selected.len()
        invariant
            k <= selected.len(),
            forall|j: int| 0 <= j < k ==> selected@[j] != i,
        decreases selected.len() - k,
    {
        if selected[k] == i {
            return true;
        }
        k += 1;
    }
    false
}

/// The values that the user has chosen in the list of all settings:
/// each setting is on exactly where its position is among `selected`.
pub fn chosen_values(selected: &Vec<usize>) -> (r: Vec<(String, bool)>)
    ensures
        r@.len() == 1,
        r@[0].0@ == "show_hints"@,
        r@[0].1 == is_selected(selected@, 0),
{
    let entries = all_settings();
    let mut r: Vec<(String, bool)> = Vec::new();
    let mut i: usize = 0;
    while i < entries.len()
        invariant
            i <= entries.len(),
            entries@.len() == 1,
            entries@[0].key@ == "show_hints"@,
            r@.len() == i,
            i == 1 ==> r@[0].0@ == "show_hints"@ && r@[0].1 == is_selected(selected@, 0),
        decreases entries.len() - i,
    {
        r.push((entries[i].key.to_owned(), selects(selected, i)));
        i += 1;
    }
    r
}

/// Whether the chosen `values` differ from the settings `raw` as they
/// were: whether a value differs at a position that both lists have.
pub fn has_changes(raw: &Vec<RawSetting>, values: &Vec<(String, bool)>) -> (r: bool)
    ensures
        r == exists|i: int|
            0 <= i < raw@.len() && i < values@.len() && (#[trigger] raw@[i]).value != values@[i].1,
{
    let mut i: usize = 0;
    while i < raw.len() && i < values.len()
        invariant
            i <= raw.len(),
            i <= values.len(),
            forall|j: int| 0 <= j < i ==> (#[trigger] raw@[j]).value == values@[j].1,
        decreases raw.len() - i,
    {
        if raw[i].value != values[i].1 {
            return true;
        }
        i += 1;
    }
    false
}

} // verus!
