//! The check registry: the catalogue of named validation rules, each bound to
//! a set of recognized column names.
//!
//! The registry is an ordered table with unique keys. Column-name matching is
//! case-sensitive exact matching. A registry value is built by [`Check::all`];
//! every `Check` in the program describes the same table, so lookups by key or
//! by column name are pure functions of their arguments.

use vstd::prelude::*;

pub mod email;

use crate::checks::email::{email_pattern_matches, EmailRegex};
use vstd::string::StringExecFns;

verus! {

/// The mathematical model of one check: its unique key and the column names
/// whose cells it applies to.
#[verifier::ext_equal]
pub struct CheckModel {
    pub key: Seq<char>,
    pub columns: Seq<Seq<char>>,
}

/// The registry's model: every check this library defines, in registry order.
pub open spec fn spec_registry() -> Seq<CheckModel> {
    seq![CheckModel { key: "email"@, columns: seq!["email"@, "email_address"@] }]
}

/// The keys of the registry, in registry order.
pub open spec fn spec_registry_keys() -> Seq<Seq<char>> {
    seq!["email"@]
}

/// A well-formed registry value: one `Check` per registry entry, each
/// describing its entry of the table.
pub open spec fn spec_registry_ok(reg: Seq<Check>) -> bool {
    &&& reg.len() == spec_registry().len()
    &&& forall|i: int| 0 <= i < reg.len() ==> (#[trigger] reg[i]).wf()
}

/// The verdict of the check named `key` on one cell value: `None` when the
/// cell passes, `Some(message)` when it fails. A key that names no registry
/// check rejects nothing.
pub open spec fn spec_cell_verdict(key: Seq<char>, cell: Seq<char>) -> Option<Seq<char>> {
    if key == "email"@ {
        if cell.len() == 0 || email_pattern_matches(cell) {
            None
        } else {
            Some("Invalid email address: "@ + cell)
        }
    } else {
        None
    }
}

/// The rule a check applies, closed over whatever prepared state it needs
/// (the email rule keeps its pattern compiled once, at registry construction).
pub enum Matcher {
    Email(EmailRegex),
}

/// One named validation rule: a key, the column names it recognizes, and the
/// prepared rule itself.
pub struct Check {
    pub key: String,
    pub columns: Vec<String>,
    pub matcher: Matcher,
}

impl View for Check {
    type V = CheckModel;

    open spec fn view(&self) -> CheckModel {
        CheckModel { key: self.key@, columns: self.columns.deep_view() }
    }
}

impl DeepView for Check {
    type V = CheckModel;

    open spec fn deep_view(&self) -> CheckModel {
        self.view()
    }
}

impl Check {
    /// A well-formed check is one of the registry's entries.
    pub open spec fn wf(self) -> bool {
        self@ =~= spec_registry()[0]
    }

    /// The whole registry, in registry order. Each check's prepared state
    /// (the compiled email pattern) is built here, once, and reused for every
    /// cell the returned value checks.
    pub fn all() -> (r: Vec<Check>)
        ensures
            spec_registry_ok(r@),
            r.deep_view() =~= spec_registry(),
    {
        let checks = vec![email::init()];
        proof {
            assert(checks.deep_view() =~= spec_registry());
        }
        checks
    }

    /// The registry's keys, in registry order.
    pub fn list_keys() -> (r: Vec<&'static str>)
        ensures
            r.deep_view() =~= spec_registry_keys(),
    {
        let keys: Vec<&'static str> = vec!["email"];
        proof {
            assert(keys.deep_view() =~= spec_registry_keys());
        }
        keys
    }

    /// Looks a check up by key: `Some` exactly when the registry has the key.
    pub fn get(key: &str) -> (r: Option<Check>)
        ensures
            r is Some <==> spec_registry_keys().contains(key@),
            r matches Some(c) ==> c.wf() && c@.key == key@,
    {
        if str_eq(key, "email") {
            proof {
                assert(spec_registry_keys()[0] == "email"@);
            }
            Some(email::init())
        } else {
            proof {
                assert forall|i: int| 0 <= i < spec_registry_keys().len() implies
                    #[trigger] spec_registry_keys()[i] != key@ by {
                    assert(spec_registry_keys()[i] == "email"@);
                }
            }
            None
        }
    }

    /// Looks a key up in the registry, returning the registry's own copy of it.
    pub fn get_key(key: &str) -> (r: Option<&'static str>)
        ensures
            r is Some <==> spec_registry_keys().contains(key@),
            r matches Some(k) ==> k@ == key@,
    {
        if str_eq(key, "email") {
            proof {
                assert(spec_registry_keys()[0] == "email"@);
            }
            Some("email")
        } else {
            proof {
                assert forall|i: int| 0 <= i < spec_registry_keys().len() implies
                    #[trigger] spec_registry_keys()[i] != key@ by {
                    assert(spec_registry_keys()[i] == "email"@);
                }
            }
            None
        }
    }

    /// Every registry check that recognizes the column named `header`, in
    /// registry order.
    pub fn get_for_column(header: &str) -> (r: Vec<Check>)
        ensures
            r.deep_view() =~= spec_checks_for_column(header@),
            forall|i: int| 0 <= i < r@.len() ==> (#[trigger] r@[i]).wf(),
    {
        let c = email::init();
        proof {
            lemma_select_singleton(spec_registry(), header@);
            assert(c@ == spec_registry()[0]);
        }
        if contains_str(&c.columns, header) {
            let r = vec![c];
            proof {
                assert(r.deep_view() =~= spec_checks_for_column(header@));
            }
            r
        } else {
            let r: Vec<Check> = Vec::new();
            proof {
                assert(r.deep_view() =~= spec_checks_for_column(header@));
            }
            r
        }
    }

    /// Runs this check on one cell value, as [`spec_cell_verdict`] says.
    pub fn run(&self, data: &str) -> (r: Result<(), String>)
        requires
            self.wf(),
        ensures
            match spec_cell_verdict(self@.key, data@) {
                None => r is Ok,
                Some(m) => r matches Err(e) && e@ == m,
            },
    {
        match &self.matcher {
            Matcher::Email(re) => {
                if data.is_empty() {
                    Ok(())
                } else if re.is_match(data) {
                    Ok(())
                } else {
                    let mut message = String::new();
                    message.append("Invalid email address: ");
                    message.append(data);
                    proof {
                        assert(message@ =~= "Invalid email address: "@ + data@);
                    }
                    Err(message)
                }
            },
        }
    }
}

/// The registry entries that recognize the column named `name`, in registry
/// order.
pub open spec fn spec_checks_for_column(name: Seq<char>) -> Seq<CheckModel> {
    spec_select_by_column(spec_registry(), name)
}

/// The entries of `reg` whose column set contains `name`, in order.
pub open spec fn spec_select_by_column(reg: Seq<CheckModel>, name: Seq<char>) -> Seq<CheckModel>
    decreases reg.len(),
{
    if reg.len() == 0 {
        Seq::empty()
    } else {
        spec_select_by_column(reg.drop_last(), name) + if reg.last().columns.contains(name) {
            seq![reg.last()]
        } else {
            Seq::empty()
        }
    }
}

/// The email check's verdict, in full: a cell that the fixed email pattern
/// matches passes; an empty cell always passes, whatever column it sits in;
/// and any other cell fails with a message carrying the cell's characters
/// verbatim after the fixed prefix.
pub proof fn lemma_email_check_verdict(cell: Seq<char>)
    ensures
        email_pattern_matches(cell) ==> spec_cell_verdict("email"@, cell) is None,
        cell.len() == 0 ==> spec_cell_verdict("email"@, cell) is None,
        cell.len() > 0 && !email_pattern_matches(cell) ==> spec_cell_verdict("email"@, cell)
            == Some("Invalid email address: "@ + cell),
{
}

/// Selecting from a one-entry table keeps that entry exactly when its column
/// set has the name.
proof fn lemma_select_singleton(reg: Seq<CheckModel>, name: Seq<char>)
    requires
        reg.len() == 1,
    ensures
        spec_select_by_column(reg, name) =~= (if reg[0].columns.contains(name) {
            seq![reg[0]]
        } else {
            Seq::<CheckModel>::empty()
        }),
{
    assert(reg.drop_last() =~= Seq::<CheckModel>::empty());
    assert(spec_select_by_column(Seq::<CheckModel>::empty(), name) =~= Seq::<CheckModel>::empty());
    assert(reg.last() == reg[0]);
}

/// String equality over the characters of both sides.
pub fn str_eq(a: &str, b: &str) -> (r: bool)
    ensures
        r == (a@ == b@),
{
    let owned_a: String = a.to_owned();
    let owned_b: String = b.to_owned();
    owned_a == owned_b
}

/// Whether `items` holds a string whose characters equal those of `needle`.
pub fn contains_str(items: &Vec<String>, needle: &str) -> (r: bool)
    ensures
        r == items.deep_view().contains(needle@),
{
    let mut i: usize = 0;
    let mut found = false;
    while i < items.len()
        invariant
            0 <= i <= items@.len(),
            found <==> exists|j: int| 0 <= j < i && items.deep_view()[j] == needle@,
        decreases items@.len() - i,
    {
        if str_eq(items[i].as_str(), needle) {
            found = true;
            proof {
                assert(items.deep_view()[i as int] == needle@);
            }
        }
        i = i + 1;
    }
    proof {
        if found {
            let j = choose|j: int| 0 <= j < items@.len() && items.deep_view()[j] == needle@;
            assert(items.deep_view().contains(needle@));
        }
        if items.deep_view().contains(needle@) {
            let j = choose|j: int| 0 <= j < items.deep_view().len()
                && items.deep_view()[j] == needle@;
            assert(0 <= j < items@.len() && items.deep_view()[j] == needle@);
        }
    }
    found
}

} // verus!
