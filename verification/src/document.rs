//! The manifest as a plain tree, and the reading of its declarations.
//!
//! The text of a manifest is parsed by the `toml` crate, and its tables are
//! handed out as plain values: texts, tables and everything else. What
//! an entry is (a condition of its own or a platform-scoped group) is
//! decided here from the shape of its value, and every declared version
//! range is read here, so that a range that is no range is reported before
//! anything is evaluated.

use vstd::prelude::*;
use semver::VersionReq;
use crate::error::{fault_at, fault_of, Failure, Fault};
use crate::manifest::{
    parse_compiler_checks, reachable_pairs, Condition, Constraint, ConstraintView, entries_view,
};
use crate::range::range_of_text;

verus! {

/// `toml::Value`, one value of a parsed text, carried through as an opaque
/// value.
#[verifier::external_type_specification]
#[verifier::external_body]
pub struct ExTomlValue(toml::Value);

/// `toml::map::Map`, the table of a parsed text.
#[verifier::external_type_specification]
#[verifier::external_body]
#[verifier::reject_recursive_types(K)]
#[verifier::reject_recursive_types(V)]
pub struct ExTomlMap<K, V>(toml::map::Map<K, V>);

/// `toml::de::Error`, the reason a text is no TOML.
#[verifier::external_type_specification]
#[verifier::external_body]
pub struct ExTomlError(toml::de::Error);

/// The table that `toml`'s parser reads from a text, or `None` where it
/// rejects the text.
pub uninterp spec fn table_of_text(text: Seq<char>) -> Option<toml::map::Map<String, toml::Value>>;

/// What a table of `toml` holds: its names in the order in which
/// `toml::map::Map::iter` walks them, each with its value as a plain item.
pub uninterp spec fn items_of(table: toml::map::Map<String, toml::Value>) -> Seq<(String, Item)>;

/// `str::parse` into `toml::Table` (its `FromStr`): trusted to be a
/// function of the text alone, succeeding exactly where `table_of_text`
/// gives a table, and then with that table.
#[verifier::external_body]
fn parse_table(text: &str) -> (r: Result<toml::map::Map<String, toml::Value>, toml::de::Error>)
    ensures
        r.is_ok() == table_of_text(text@).is_some(),
        r.is_ok() ==> table_of_text(text@) == Some(r.unwrap()),
{
    text.parse::<toml::Table>()
}

/// `toml::map::Map::iter`, each entry handed out with a copy of its name and
/// its value as a plain item: a text as `Text`, a table as `Table` of its
/// own entries handed out in the same way, any other value as `Other`.
/// Trusted to be a function of the table alone, named `items_of`.
#[verifier::external_body]
fn plain_items(table: &toml::map::Map<String, toml::Value>) -> (r: Vec<(String, Item)>)
    ensures
        r@ == items_of(*table),
{
    table.iter().map(|(k, v)| (k.clone(), match v {
        toml::Value::String(s) => Item::Text(s.clone()),
        toml::Value::Table(t) => Item::Table(plain_items(t)),
        toml::Value::Integer(_) => Item::Other,
        toml::Value::Float(_) => Item::Other,
        toml::Value::Boolean(_) => Item::Other,
        toml::Value::Datetime(_) => Item::Other,
        toml::Value::Array(_) => Item::Other,
    })).collect()
}

/// One value of the manifest: a text, a table of named values in the order
/// in which they were read, or anything else (numbers, dates, arrays),
/// which no declaration uses.
///
/// A table stands for a mapping: where declarations are read from it, no
/// name may occur in it twice (`distinct_names`).
#[derive(Debug, PartialEq)]
pub enum Item {
    Text(String),
    Table(Vec<(String, Item)>),
    Other,
}

/// Whether no name occurs twice in a table.
pub open spec fn distinct_names(table: Seq<(String, Item)>) -> bool {
    forall|i: int, j: int|
        0 <= i < j < table.len() ==> (#[trigger] table[i]).0@ != (#[trigger] table[j]).0@
}

/// The value that a table holds under a key, if any: the last one, should
/// the key stand there more than once.
pub open spec fn lookup(table: Seq<(String, Item)>, key: Seq<char>) -> Option<Item>
    decreases table.len(),
{
    if table.len() == 0 {
        None
    } else if table.last().0@ == key {
        Some(table.last().1)
    } else {
        lookup(table.drop_last(), key)
    }
}

/// The table that a table holds under a key, if it holds a table there.
pub open spec fn subtable(table: Seq<(String, Item)>, key: Seq<char>) -> Option<
    Seq<(String, Item)>,
> {
    match lookup(table, key) {
        Some(Item::Table(inner)) => Some(inner@),
        _ => None,
    }
}

/// The section that holds the declarations, looked for from the top table
/// of the manifest: `package.metadata.toml_describe.compiler_checks`.
pub open spec fn section_in(root: Seq<(String, Item)>) -> Option<Seq<(String, Item)>> {
    match subtable(root, "package"@) {
        Some(package) => match subtable(package, "metadata"@) {
            Some(metadata) => match subtable(metadata, "toml_describe"@) {
                Some(own) => subtable(own, "compiler_checks"@),
                None => None,
            },
            None => None,
        },
        None => None,
    }
}

/// The section of a manifest that holds the declarations.
pub open spec fn section_of(document: Item) -> Option<Seq<(String, Item)>> {
    match document {
        Item::Table(root) => section_in(root@),
        _ => None,
    }
}

/// The text under a key: absent, present, or present and no text.
pub open spec fn text_field(table: Seq<(String, Item)>, key: Seq<char>) -> Result<
    Option<String>,
    Failure,
> {
    match lookup(table, key) {
        None => Ok(None),
        Some(Item::Text(text)) => Ok(Some(text)),
        Some(_) => Err(Failure::ManifestFormat),
    }
}

/// The version range under a key: absent, present, or a failure where the
/// value is no text or the text no range.
pub open spec fn range_field(table: Seq<(String, Item)>, key: Seq<char>) -> Result<
    Option<VersionReq>,
    Failure,
> {
    match text_field(table, key) {
        Err(e) => Err(e),
        Ok(None) => Ok(None),
        Ok(Some(text)) => match range_of_text(text@) {
            Some(range) => Ok(Some(range)),
            None => Err(Failure::VersionSyntax),
        },
    }
}

/// The condition that a table declares: `version`, `nightly_version` and
/// `cfg`, each optional, read in this order. Other keys are ignored. A table
/// in which a name occurs twice declares nothing.
pub open spec fn declared_condition(table: Seq<(String, Item)>) -> Result<Condition, Failure> {
    if !distinct_names(table) {
        Err(Failure::ManifestFormat)
    } else {
        match range_field(table, "version"@) {
            Err(e) => Err(e),
            Ok(version) => match range_field(table, "nightly_version"@) {
                Err(e) => Err(e),
                Ok(nightly_version) => match text_field(table, "cfg"@) {
                    Err(e) => Err(e),
                    Ok(cfg) => Ok(Condition { version, nightly_version, cfg }),
                },
            },
        }
    }
}

/// Whether a table has the shape of a group: it is not empty and each of
/// its values is a table.
pub open spec fn is_group(table: Seq<(String, Item)>) -> bool {
    table.len() > 0 && forall|i: int| 0 <= i < table.len() ==> (#[trigger] table[i]).1 is Table
}

/// The named conditions that a table of tables declares, in order, or the
/// first failure among them.
pub open spec fn declared_members(table: Seq<(String, Item)>) -> Result<
    Seq<(String, Condition)>,
    Failure,
>
    decreases table.len(),
{
    if table.len() == 0 {
        Ok(Seq::empty())
    } else {
        match declared_members(table.drop_last()) {
            Err(e) => Err(e),
            Ok(front) => match table.last().1 {
                Item::Table(inner) => match declared_condition(inner@) {
                    Err(e) => Err(e),
                    Ok(condition) => Ok(front.push((table.last().0, condition))),
                },
                _ => Err(Failure::ManifestFormat),
            },
        }
    }
}

/// The constraint that the value of one entry declares. The value must be a
/// table. A table with the shape of a group is a platform-scoped group, any
/// other table a condition of its own. A group in which a name occurs twice
/// declares nothing.
pub open spec fn declared_constraint(item: Item) -> Result<ConstraintView, Failure> {
    match item {
        Item::Table(table) => if is_group(table@) {
            if !distinct_names(table@) {
                Err(Failure::ManifestFormat)
            } else {
                match declared_members(table@) {
                    Err(e) => Err(e),
                    Ok(members) => Ok(ConstraintView::Cfg(members)),
                }
            }
        } else {
            match declared_condition(table@) {
                Err(e) => Err(e),
                Ok(condition) => Ok(ConstraintView::Condition(condition)),
            }
        },
        _ => Err(Failure::ManifestFormat),
    }
}

/// The entries that a section declares, in order, or the first failure
/// among them, under the name of its entry.
pub open spec fn declared_entries(section: Seq<(String, Item)>) -> Result<
    Seq<(String, ConstraintView)>,
    Fault,
>
    decreases section.len(),
{
    if section.len() == 0 {
        Ok(Seq::empty())
    } else {
        match declared_entries(section.drop_last()) {
            Err(e) => Err(e),
            Ok(front) => match declared_constraint(section.last().1) {
                Err(kind) => Err(fault_at(kind, section.last().0)),
                Ok(constraint) => Ok(front.push((section.last().0, constraint))),
            },
        }
    }
}

/// The pairs that a section, if there is one, declares and that are
/// reachable for a target. Every declaration is read before any predicate
/// is evaluated. No section, or a name twice in it, declares nothing.
pub open spec fn section_pairs(section: Option<Seq<(String, Item)>>, target: Seq<char>) -> Result<
    Seq<(String, Condition)>,
    Fault,
> {
    match section {
        None => Err(fault_of(Failure::ManifestFormat)),
        Some(section) => if !distinct_names(section) {
            Err(fault_of(Failure::ManifestFormat))
        } else {
            match declared_entries(section) {
                Err(e) => Err(e),
                Ok(entries) => reachable_pairs(entries, target),
            }
        },
    }
}

/// The pairs that a manifest declares and that are reachable for a target.
pub open spec fn declared_pairs(document: Item, target: Seq<char>) -> Result<
    Seq<(String, Condition)>,
    Fault,
> {
    section_pairs(section_of(document), target)
}

/// The pairs that the text of a manifest declares and that are reachable
/// for a target. A text that is no TOML declares nothing.
pub open spec fn text_pairs(text: Seq<char>, target: Seq<char>) -> Result<
    Seq<(String, Condition)>,
    Fault,
> {
    match table_of_text(text) {
        None => Err(fault_of(Failure::ManifestFormat)),
        Some(table) => section_pairs(section_in(items_of(table)), target),
    }
}

/// Decides whether no name occurs twice in a table.
pub fn has_distinct_names(table: &Vec<(String, Item)>) -> (r: bool)
    ensures
        r == distinct_names(table@),
{
    let mut j: usize = 0;
    while j < table.len()
        invariant
            j <= table.len(),
            forall|a: int, b: int|
                0 <= a < b < j ==> (#[trigger] table@[a]).0@ != (#[trigger] table@[b]).0@,
        decreases table.len() - j,
    {
        let mut i: usize = 0;
        while i < j
            invariant
                i <= j < table.len(),
                forall|a: int| 0 <= a < i ==> (#[trigger] table@[a]).0@ != table@[j as int].0@,
            decreases j - i,
        {
            if table[i].0 == table[j].0 {
                assert(table@[i as int].0@ == table@[j as int].0@);
                return false;
            }
            i = i + 1;
        }
        j = j + 1;
    }
    true
}

/// Finds the value under a key.
pub fn find<'a>(table: &'a Vec<(String, Item)>, key: &String) -> (r: Option<&'a Item>)
    ensures
        match r {
            Some(item) => lookup(table@, key@) == Some(*item),
            None => lookup(table@, key@) is None,
        },
{
    let mut found: Option<&'a Item> = None;
    let mut i: usize = 0;
    while i < table.len()
        invariant
            i <= table.len(),
            match found {
                Some(item) => lookup(table@.take(i as int), key@) == Some(*item),
                None => lookup(table@.take(i as int), key@) is None,
            },
        decreases table.len() - i,
    {
        proof {
            assert(table@.take(i + 1).drop_last() == table@.take(i as int));
            assert(table@.take(i + 1).last() == table@[i as int]);
        }
        if table[i].0 == *key {
            found = Some(&table[i].1);
        }
        i = i + 1;
    }
    proof {
        assert(table@.take(table.len() as int) == table@);
    }
    found
}

/// Finds the table under a key.
pub fn find_table<'a>(table: &'a Vec<(String, Item)>, key: &String) -> (r: Option<
    &'a Vec<(String, Item)>,
>)
    ensures
        match r {
            Some(inner) => subtable(table@, key@) == Some(inner@),
            None => subtable(table@, key@) is None,
        },
{
    match find(table, key) {
        Some(Item::Table(inner)) => Some(inner),
        _ => None,
    }
}

/// Finds the section of the manifest that holds the declarations.
pub fn find_section<'a>(document: &'a Item) -> (r: Option<&'a Vec<(String, Item)>>)
    ensures
        match r {
            Some(section) => section_of(*document) == Some(section@),
            None => section_of(*document) is None,
        },
{
    match document {
        Item::Table(root) => find_section_in(root),
        _ => None,
    }
}

/// Finds the section that holds the declarations, from the top table.
pub fn find_section_in<'a>(root: &'a Vec<(String, Item)>) -> (r: Option<&'a Vec<(String, Item)>>)
    ensures
        match r {
            Some(section) => section_in(root@) == Some(section@),
            None => section_in(root@) is None,
        },
{
    let package = match find_table(root, &"package".to_owned()) {
        Some(package) => package,
        None => { return None; },
    };
    let metadata = match find_table(package, &"metadata".to_owned()) {
        Some(metadata) => metadata,
        None => { return None; },
    };
    let own = match find_table(metadata, &"toml_describe".to_owned()) {
        Some(own) => own,
        None => { return None; },
    };
    find_table(own, &"compiler_checks".to_owned())
}

/// Reads the text under a key.
pub fn read_text(table: &Vec<(String, Item)>, key: &String) -> (r: Result<Option<String>, Failure>)
    ensures
        r == text_field(table@, key@),
{
    match find(table, key) {
        None => Ok(None),
        Some(Item::Text(text)) => Ok(Some(text.clone())),
        Some(_) => Err(Failure::ManifestFormat),
    }
}

/// Reads the version range under a key.
pub fn read_range(table: &Vec<(String, Item)>, key: &String) -> (r: Result<
    Option<VersionReq>,
    Failure,
>)
    ensures
        r == range_field(table@, key@),
{
    match find(table, key) {
        None => Ok(None),
        Some(Item::Text(text)) => match VersionReq::parse(text.as_str()) {
            Ok(range) => Ok(Some(range)),
            Err(_) => Err(Failure::VersionSyntax),
        },
        Some(_) => Err(Failure::ManifestFormat),
    }
}

/// Reads the condition that a table declares.
pub fn read_condition(table: &Vec<(String, Item)>) -> (r: Result<Condition, Failure>)
    ensures
        r == declared_condition(table@),
{
    if !has_distinct_names(table) {
        return Err(Failure::ManifestFormat);
    }
    let version = match read_range(table, &"version".to_owned()) {
        Ok(version) => version,
        Err(e) => { return Err(e); },
    };
    let nightly_version = match read_range(table, &"nightly_version".to_owned()) {
        Ok(nightly_version) => nightly_version,
        Err(e) => { return Err(e); },
    };
    let cfg = match read_text(table, &"cfg".to_owned()) {
        Ok(cfg) => cfg,
        Err(e) => { return Err(e); },
    };
    Ok(Condition { version, nightly_version, cfg })
}

/// Decides whether a table has the shape of a group.
pub fn has_group_shape(table: &Vec<(String, Item)>) -> (r: bool)
    ensures
        r == is_group(table@),
{
    if table.len() == 0 {
        return false;
    }
    let mut i: usize = 0;
    while i < table.len()
        invariant
            i <= table.len(),
            forall|j: int| 0 <= j < i ==> (#[trigger] table@[j]).1 is Table,
        decreases table.len() - i,
    {
        match &table[i].1 {
            Item::Table(_) => {},
            _ => {
                assert(!(table@[i as int].1 is Table));
                return false;
            },
        }
        i = i + 1;
    }
    true
}

/// Reads the named conditions of a group.
pub fn read_members(table: &Vec<(String, Item)>) -> (r: Result<Vec<(String, Condition)>, Failure>)
    ensures
        match r {
            Ok(members) => declared_members(table@) == Ok::<_, Failure>(members@),
            Err(e) => declared_members(table@) == Err::<Seq<(String, Condition)>, _>(e),
        },
{
    let mut members: Vec<(String, Condition)> = Vec::new();
    let mut i: usize = 0;
    while i < table.len()
        invariant
            i <= table.len(),
            declared_members(table@.take(i as int)) == Ok::<_, Failure>(members@),
        decreases table.len() - i,
    {
        proof {
            assert(table@.take(i + 1).drop_last() == table@.take(i as int));
            assert(table@.take(i + 1).last() == table@[i as int]);
        }
        let read = match &table[i].1 {
            Item::Table(inner) => read_condition(inner),
            _ => Err(Failure::ManifestFormat),
        };
        match read {
            Ok(condition) => {
                members.push((table[i].0.clone(), condition));
            },
            Err(e) => {
                proof {
                    lemma_member_failure_stays(table@, i + 1);
                }
                return Err(e);
            },
        }
        i = i + 1;
    }
    proof {
        assert(table@.take(table.len() as int) == table@);
    }
    Ok(members)
}

/// Classifies the value of one entry and reads what it declares.
pub fn read_constraint(item: &Item) -> (r: Result<Constraint, Failure>)
    ensures
        match r {
            Ok(constraint) => declared_constraint(*item) == Ok::<_, Failure>(constraint@),
            Err(e) => declared_constraint(*item) == Err::<ConstraintView, _>(e),
        },
{
    match item {
        Item::Table(table) => {
            if has_group_shape(table) {
                if !has_distinct_names(table) {
                    return Err(Failure::ManifestFormat);
                }
                match read_members(table) {
                    Ok(members) => Ok(Constraint::Cfg(members)),
                    Err(e) => Err(e),
                }
            } else {
                match read_condition(table) {
                    Ok(condition) => Ok(Constraint::Condition(condition)),
                    Err(e) => Err(e),
                }
            }
        },
        _ => Err(Failure::ManifestFormat),
    }
}

/// Reads every entry of a section.
pub fn read_entries(section: &Vec<(String, Item)>) -> (r: Result<Vec<(String, Constraint)>, Fault>)
    ensures
        match r {
            Ok(entries) => declared_entries(section@) == Ok::<_, Fault>(entries_view(entries@)),
            Err(e) => declared_entries(section@) == Err::<Seq<(String, ConstraintView)>, _>(e),
        },
{
    let mut entries: Vec<(String, Constraint)> = Vec::new();
    let mut i: usize = 0;
    proof {
        assert(entries_view(entries@) == Seq::<(String, ConstraintView)>::empty());
    }
    while i < section.len()
        invariant
            i <= section.len(),
            declared_entries(section@.take(i as int)) == Ok::<_, Fault>(entries_view(entries@)),
        decreases section.len() - i,
    {
        let ghost before = entries@;
        proof {
            assert(section@.take(i + 1).drop_last() == section@.take(i as int));
            assert(section@.take(i + 1).last() == section@[i as int]);
        }
        match read_constraint(&section[i].1) {
            Ok(constraint) => {
                let name = section[i].0.clone();
                entries.push((name, constraint));
                proof {
                    assert(entries_view(entries@) == entries_view(before).push((name, constraint@)));
                }
            },
            Err(kind) => {
                proof {
                    lemma_entry_failure_stays(section@, i + 1);
                }
                return Err(Fault { kind, entry: Some(section[i].0.clone()) });
            },
        }
        i = i + 1;
    }
    proof {
        assert(section@.take(section.len() as int) == section@);
    }
    Ok(entries)
}

/// Reads the declarations of a section, if there is one, and flattens them
/// into the pairs that are reachable for `target`.
pub fn flatten_section(section: Option<&Vec<(String, Item)>>, target: &str) -> (r: Result<
    Vec<(String, Condition)>,
    Fault,
>)
    ensures
        match (r, section) {
            (Ok(pairs), Some(found)) => section_pairs(Some(found@), target@) == Ok::<_, Fault>(
                pairs@,
            ),
            (Err(e), Some(found)) => section_pairs(Some(found@), target@) == Err::<
                Seq<(String, Condition)>,
                _,
            >(e),
            (Ok(_), None) => false,
            (Err(e), None) => e == fault_of(Failure::ManifestFormat),
        },
{
    match section {
        None => Err(Fault { kind: Failure::ManifestFormat, entry: None }),
        Some(section) => {
            if !has_distinct_names(section) {
                return Err(Fault { kind: Failure::ManifestFormat, entry: None });
            }
            match read_entries(section) {
                Err(e) => Err(e),
                Ok(entries) => parse_compiler_checks(&entries, target),
            }
        },
    }
}

/// Reads the manifest and flattens what it declares into the pairs that are
/// reachable for `target`. A manifest without the section, a value of the
/// wrong kind, a name twice in one table, a text that is no version range,
/// a key of a group that is no predicate and an unknown target each abandon
/// the whole evaluation.
pub fn flatten(document: &Item, target: &str) -> (r: Result<Vec<(String, Condition)>, Fault>)
    ensures
        match r {
            Ok(pairs) => declared_pairs(*document, target@) == Ok::<_, Fault>(pairs@),
            Err(e) => declared_pairs(*document, target@) == Err::<Seq<(String, Condition)>, _>(e),
        },
{
    flatten_section(find_section(document), target)
}

/// Parses the text of a manifest into its tree. A text that is no TOML is a
/// format failure of the manifest as a whole.
pub fn read_document(text: &str) -> (r: Result<Item, Fault>)
    ensures
        match r {
            Ok(document) => match (table_of_text(text@), document) {
                (Some(table), Item::Table(root)) => root@ == items_of(table),
                _ => false,
            },
            Err(e) => table_of_text(text@) is None && e == fault_of(Failure::ManifestFormat),
        },
{
    match parse_table(text) {
        Err(_) => Err(Fault { kind: Failure::ManifestFormat, entry: None }),
        Ok(table) => Ok(Item::Table(plain_items(&table))),
    }
}

/// Parses the text of a manifest, reads what it declares and flattens it
/// into the pairs that are reachable for `target`. A text that is no TOML
/// abandons the evaluation as a manifest without the section does.
pub fn flatten_text(text: &str, target: &str) -> (r: Result<Vec<(String, Condition)>, Fault>)
    ensures
        match r {
            Ok(pairs) => text_pairs(text@, target@) == Ok::<_, Fault>(pairs@),
            Err(e) => text_pairs(text@, target@) == Err::<Seq<(String, Condition)>, _>(e),
        },
{
    match parse_table(text) {
        Err(_) => Err(Fault { kind: Failure::ManifestFormat, entry: None }),
        Ok(table) => {
            let root = plain_items(&table);
            flatten_section(find_section_in(&root), target)
        },
    }
}

/// A failure among the first `n` members is the failure of the whole group.
proof fn lemma_member_failure_stays(table: Seq<(String, Item)>, n: int)
    requires
        0 <= n <= table.len(),
        declared_members(table.take(n)) is Err,
    ensures
        declared_members(table) == declared_members(table.take(n)),
    decreases table.len() - n,
{
    if n < table.len() {
        assert(table.take(n + 1).drop_last() == table.take(n));
        lemma_member_failure_stays(table, n + 1);
    } else {
        assert(table.take(n) == table);
    }
}

/// A failure among the first `n` entries is the failure of the whole section.
proof fn lemma_entry_failure_stays(section: Seq<(String, Item)>, n: int)
    requires
        0 <= n <= section.len(),
        declared_entries(section.take(n)) is Err,
    ensures
        declared_entries(section) == declared_entries(section.take(n)),
    decreases section.len() - n,
{
    if n < section.len() {
        assert(section.take(n + 1).drop_last() == section.take(n));
        lemma_entry_failure_stays(section, n + 1);
    } else {
        assert(section.take(n) == section);
    }
}

} // verus!
