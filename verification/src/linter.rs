//! The linter: header binding, row validation, error accumulation, verdict.
//!
//! A run reads the header row, computes once — per column, in registry
//! order — the list of enabled check keys that apply to that column, then
//! validates every data row against that binding. Errors never abort the
//! run: a malformed row or a failing cell is recorded and the run goes on.
//! The verdict is pass exactly when no error was accumulated.

use std::io::Write;

use vstd::prelude::*;

use crate::checks::{
    contains_str, spec_cell_verdict, spec_registry, spec_registry_ok, str_eq, Check, CheckModel,
};
use crate::csv_input::{csv_parse_of, parse_csv, CsvModel, ParsedCsv, ParsedRow, RowModel};
use crate::lint_error::{LintError, LintErrorModel};
use vstd::string::StringExecFns;

verus! {

/// The keys of the checks in `reg` that both recognize the column named
/// `name` and stand in `enabled`, in table order.
pub open spec fn spec_keys_for(
    reg: Seq<CheckModel>,
    name: Seq<char>,
    enabled: Seq<Seq<char>>,
) -> Seq<Seq<char>>
    decreases reg.len(),
{
    if reg.len() == 0 {
        Seq::empty()
    } else {
        spec_keys_for(reg.drop_last(), name, enabled)
            + if reg.last().columns.contains(name) && enabled.contains(reg.last().key) {
            seq![reg.last().key]
        } else {
            Seq::empty()
        }
    }
}

/// The check keys bound to one column: the registry checks that recognize
/// its name, intersected with the enabled keys, in registry order.
pub open spec fn spec_column_checks(name: Seq<char>, enabled: Seq<Seq<char>>) -> Seq<Seq<char>> {
    spec_keys_for(spec_registry(), name, enabled)
}

/// The whole header binding: one check-key list per column, in column order.
pub open spec fn spec_bind(headers: Seq<Seq<char>>, enabled: Seq<Seq<char>>) -> Seq<Seq<Seq<char>>>
    decreases headers.len(),
{
    if headers.len() == 0 {
        Seq::empty()
    } else {
        spec_bind(headers.drop_last(), enabled).push(spec_column_checks(headers.last(), enabled))
    }
}

/// The message of the first check in `keys` (in order) that rejects `cell`,
/// if any: a cell reports at most one failure, the earliest bound check wins.
pub open spec fn spec_first_failure(keys: Seq<Seq<char>>, cell: Seq<char>) -> Option<Seq<char>>
    decreases keys.len(),
{
    if keys.len() == 0 {
        None
    } else {
        match spec_first_failure(keys.drop_last(), cell) {
            Some(m) => Some(m),
            None => spec_cell_verdict(keys.last(), cell),
        }
    }
}

/// An optional failure message as a (possibly empty) message sequence.
pub open spec fn spec_opt_messages(m: Option<Seq<char>>) -> Seq<Seq<char>> {
    match m {
        Some(m) => seq![m],
        None => Seq::empty(),
    }
}

/// The failure messages of the first `n` columns of one data row, in column
/// order.
pub open spec fn spec_row_messages_upto(
    binding: Seq<Seq<Seq<char>>>,
    cells: Seq<Seq<char>>,
    n: int,
) -> Seq<Seq<char>>
    decreases n,
{
    if n <= 0 {
        Seq::empty()
    } else {
        spec_row_messages_upto(binding, cells, n - 1)
            + spec_opt_messages(spec_first_failure(binding[n - 1], cells[n - 1]))
    }
}

/// All failure messages of one data row: every column that has both a cell
/// and a binding entry, in column order, at most one message per cell.
pub open spec fn spec_row_messages(
    binding: Seq<Seq<Seq<char>>>,
    cells: Seq<Seq<char>>,
) -> Seq<Seq<char>> {
    spec_row_messages_upto(
        binding,
        cells,
        if binding.len() <= cells.len() {
            binding.len() as int
        } else {
            cells.len() as int
        },
    )
}

/// A decimal digit as a character.
pub open spec fn spec_digit(d: nat) -> char {
    if d == 0 {
        '0'
    } else if d == 1 {
        '1'
    } else if d == 2 {
        '2'
    } else if d == 3 {
        '3'
    } else if d == 4 {
        '4'
    } else if d == 5 {
        '5'
    } else if d == 6 {
        '6'
    } else if d == 7 {
        '7'
    } else if d == 8 {
        '8'
    } else {
        '9'
    }
}

/// The decimal rendering of a number, most significant digit first.
pub open spec fn spec_dec(n: nat) -> Seq<char>
    decreases n,
{
    if n < 10 {
        seq![spec_digit(n)]
    } else {
        spec_dec(n / 10).push(spec_digit(n % 10))
    }
}

/// A record rendered for display: its cells joined by a comma, whatever the
/// input delimiter was.
pub open spec fn spec_join(cells: Seq<Seq<char>>) -> Seq<char>
    decreases cells.len(),
{
    if cells.len() == 0 {
        Seq::empty()
    } else if cells.len() == 1 {
        cells[0]
    } else {
        spec_join(cells.drop_last()) + ","@ + cells.last()
    }
}

/// A record rendered with its target identifier and 1-based line number.
pub open spec fn spec_display_record(
    filename: Seq<char>,
    line: nat,
    cells: Seq<Seq<char>>,
) -> Seq<char> {
    filename + "["@ + spec_dec(line) + "]: "@ + spec_join(cells)
}

/// The errors one parsed data row contributes, in arrival order: a malformed
/// row contributes its structural error, a parsed row one check error per
/// failing cell.
pub open spec fn spec_row_contrib(
    filename: Seq<char>,
    binding: Seq<Seq<Seq<char>>>,
    row: RowModel,
    line: int,
) -> Seq<LintErrorModel> {
    match row {
        RowModel::Malformed(m) => seq![LintErrorModel::Csv { message: m }],
        RowModel::Cells(cells) => spec_row_messages(binding, cells).map_values(
            |m: Seq<char>|
                LintErrorModel::Check {
                    filename: filename,
                    line: line,
                    record: spec_join(cells),
                    message: m,
                },
        ),
    }
}

/// The errors a whole sequence of parsed data rows contributes, rows in
/// order, each row's errors in column order, data rows numbered from 1.
pub open spec fn spec_errors(
    filename: Seq<char>,
    binding: Seq<Seq<Seq<char>>>,
    rows: Seq<RowModel>,
) -> Seq<LintErrorModel>
    decreases rows.len(),
{
    if rows.len() == 0 {
        Seq::empty()
    } else {
        spec_errors(filename, binding, rows.drop_last())
            + spec_row_contrib(filename, binding, rows.last(), rows.len() as int)
    }
}

/// Header binding is a pure, column-order-preserving function: the binding
/// has exactly one entry per column, and each entry depends only on that
/// column's name and the enabled keys. Binding the same header twice with
/// the same enabled set therefore yields identical per-column check lists.
pub proof fn lemma_header_binding_pointwise(headers: Seq<Seq<char>>, enabled: Seq<Seq<char>>)
    ensures
        spec_bind(headers, enabled).len() == headers.len(),
        forall|i: int|
            0 <= i < headers.len() ==> spec_bind(headers, enabled)[i] == spec_column_checks(
                headers[i],
                enabled,
            ),
    decreases headers.len(),
{
    if headers.len() > 0 {
        lemma_header_binding_pointwise(headers.drop_last(), enabled);
        assert forall|i: int|
            0 <= i < headers.len() implies spec_bind(headers, enabled)[i] == spec_column_checks(
            headers[i],
            enabled,
        ) by {
            if i < headers.len() - 1 {
                assert(headers.drop_last()[i] == headers[i]);
            } else {
                assert(headers.last() == headers[i]);
            }
        }
    }
}

/// A file with a header but no data rows contributes no errors: it always
/// passes.
pub proof fn lemma_no_rows_no_errors(filename: Seq<char>, binding: Seq<Seq<Seq<char>>>)
    ensures
        spec_errors(filename, binding, Seq::<RowModel>::empty()) == Seq::<LintErrorModel>::empty(),
{
    assert(spec_errors(filename, binding, Seq::<RowModel>::empty()) =~= Seq::<
        LintErrorModel,
    >::empty());
}

/// One decimal digit, rendered.
fn digit_str(d: usize) -> (r: &'static str)
    requires
        d < 10,
    ensures
        r@ == seq![spec_digit(d as nat)],
{
    let r = if d == 0 {
        "0"
    } else if d == 1 {
        "1"
    } else if d == 2 {
        "2"
    } else if d == 3 {
        "3"
    } else if d == 4 {
        "4"
    } else if d == 5 {
        "5"
    } else if d == 6 {
        "6"
    } else if d == 7 {
        "7"
    } else if d == 8 {
        "8"
    } else {
        "9"
    };
    proof {
        reveal_strlit("0");
        reveal_strlit("1");
        reveal_strlit("2");
        reveal_strlit("3");
        reveal_strlit("4");
        reveal_strlit("5");
        reveal_strlit("6");
        reveal_strlit("7");
        reveal_strlit("8");
        reveal_strlit("9");
        assert(r@ =~= seq![spec_digit(d as nat)]);
    }
    r
}

/// A number rendered in decimal, most significant digit first.
fn dec_str(n: usize) -> (r: String)
    ensures
        r@ == spec_dec(n as nat),
    decreases n,
{
    if n < 10 {
        let r = digit_str(n).to_owned();
        r
    } else {
        let mut r = dec_str(n / 10);
        r.append(digit_str(n % 10));
        proof {
            assert(r@ =~= spec_dec(n as nat));
        }
        r
    }
}

/// Renders a record for display: its cells joined by a comma.
#[verifier::loop_isolation(false)]
pub fn display_record(record: &Vec<String>) -> (r: String)
    ensures
        r@ == spec_join(record.deep_view()),
{
    let ghost cells = record.deep_view();
    let mut out = String::new();
    let mut i: usize = 0;
    while i < record.len()
        invariant
            0 <= i <= record@.len(),
            out@ == spec_join(cells.take(i as int)),
        decreases record@.len() - i,
    {
        if i > 0 {
            out.append(",");
        }
        out.append(record[i].as_str());
        proof {
            assert(cells.take(i + 1).drop_last() =~= cells.take(i as int));
            assert(cells.take(i + 1).last() == cells[i as int]);
            assert(out@ =~= spec_join(cells.take(i + 1)));
        }
        i = i + 1;
    }
    proof {
        assert(cells.take(record@.len() as int) =~= cells);
    }
    out
}

/// Relies on `std::io::Stdout::write_fmt` (through `writeln`): echoes one
/// rendered record to standard output, the observation channel used when
/// every record is to be displayed. No result, no effect on validation.
#[verifier::external_body]
fn echo_line(s: &str) {
    let mut out = std::io::stdout();
    let _ = writeln!(out, "{}", s);
}

/// The byte value of an ASCII comma, the default field delimiter.
pub const COMMA: u8 = 44;

/// The delimiter byte a configuration stands for: the configured byte, or a
/// comma when none is set.
pub open spec fn spec_delimiter(delimiter: Option<u8>) -> u8 {
    match delimiter {
        Some(d) => d,
        None => COMMA,
    }
}

/// The verdict of the check named `key` on one cell, looked up in a registry
/// value: `None` when the cell passes (also when no check has the key),
/// `Some(message)` when the check rejects it.
fn cell_verdict(registry: &Vec<Check>, key: &str, cell: &str) -> (r: Option<String>)
    requires
        spec_registry_ok(registry@),
    ensures
        match spec_cell_verdict(key@, cell@) {
            None => r is None,
            Some(m) => r matches Some(s) && s@ == m,
        },
{
    let c = &registry[0];
    proof {
        assert(c.wf());
        assert(c@ == spec_registry()[0]);
        assert(spec_registry()[0].key == "email"@);
    }
    if str_eq(key, c.key.as_str()) {
        match c.run(cell) {
            Ok(_) => None,
            Err(m) => Some(m),
        }
    } else {
        None
    }
}

/// One validation run over one file: the configuration, the header binding
/// computed once per file, and the errors accumulated so far.
///
/// `filename` is the target identifier used in error records; `checks` holds
/// the enabled check keys; `delimiter` and `escape` optionally override the
/// CSV layer's field delimiter (default comma) and escape byte (default:
/// doubled-quote escaping only). `headers` and `header_checks` are derived
/// from the last input given to [`Linter::run`].
pub struct Linter {
    pub filename: String,
    pub show_all: bool,
    pub delimiter: Option<u8>,
    pub escape: Option<u8>,
    pub checks: Vec<String>,
    pub errors: Vec<LintError>,
    pub headers: Vec<String>,
    pub header_checks: Vec<Vec<String>>,
}

impl Default for Linter {
    /// An empty target identifier, no echo, default delimiter and escape,
    /// no checks enabled, and no accumulated state.
    fn default() -> (r: Linter)
        ensures
            r.filename@.len() == 0,
            !r.show_all,
            r.delimiter is None,
            r.escape is None,
            r.checks@.len() == 0,
            r.errors@.len() == 0,
            r.headers@.len() == 0,
            r.header_checks@.len() == 0,
    {
        Linter {
            filename: String::new(),
            show_all: false,
            delimiter: None,
            escape: None,
            checks: Vec::new(),
            errors: Vec::new(),
            headers: Vec::new(),
            header_checks: Vec::new(),
        }
    }
}

impl Linter {
    /// Renders a record with the target identifier and its 1-based line
    /// number.
    pub fn display_record(&self, line: usize, record: &Vec<String>) -> (r: String)
        ensures
            r@ == spec_display_record(self.filename@, line as nat, record.deep_view()),
    {
        let mut out = self.filename.clone();
        out.append("[");
        out.append(dec_str(line).as_str());
        out.append("]: ");
        out.append(display_record(record).as_str());
        proof {
            assert(out@ =~= spec_display_record(self.filename@, line as nat, record.deep_view()));
        }
        out
    }

    /// Computes the per-column check lists for the current header row: for
    /// each column, the enabled registry checks that recognize its name, in
    /// registry order. Done once per file, right after the header row is
    /// read, and reused for every data row.
    #[verifier::loop_isolation(false)]
    fn init_header_checks(&self, registry: &Vec<Check>) -> (r: Vec<Vec<String>>)
        requires
            spec_registry_ok(registry@),
        ensures
            r.deep_view() == spec_bind(self.headers.deep_view(), self.checks.deep_view()),
    {
        let ghost names = self.headers.deep_view();
        let ghost enabled = self.checks.deep_view();
        let mut r: Vec<Vec<String>> = Vec::new();
        let mut i: usize = 0;
        while i < self.headers.len()
            invariant
                0 <= i <= self.headers@.len(),
                r.deep_view() =~= spec_bind(names.take(i as int), enabled),
            decreases self.headers@.len() - i,
        {
            let name = &self.headers[i];
            let mut keys: Vec<String> = Vec::new();
            let mut k: usize = 0;
            while k < registry.len()
                invariant
                    0 <= k <= registry@.len(),
                    keys.deep_view() =~= spec_keys_for(
                        spec_registry().take(k as int),
                        name@,
                        enabled,
                    ),
                decreases registry@.len() - k,
            {
                let c = &registry[k];
                proof {
                    assert(c.wf());
                    assert(c@ == spec_registry()[0]);
                    assert(k == 0);
                }
                if contains_str(&c.columns, name.as_str()) && contains_str(
                    &self.checks,
                    c.key.as_str(),
                ) {
                    keys.push(c.key.clone());
                }
                proof {
                    let reg = spec_registry();
                    assert(reg.take(k + 1).drop_last() =~= reg.take(k as int));
                    assert(reg.take(k + 1).last() == reg[k as int]);
                    assert(keys.deep_view() =~= spec_keys_for(reg.take(k + 1), name@, enabled));
                }
                k = k + 1;
            }
            proof {
                assert(spec_registry().take(registry@.len() as int) =~= spec_registry());
            }
            r.push(keys);
            proof {
                assert(names.take(i + 1).drop_last() =~= names.take(i as int));
                assert(names.take(i + 1).last() == names[i as int]);
                assert(r.deep_view() =~= spec_bind(names.take(i + 1), enabled));
            }
            i = i + 1;
        }
        proof {
            assert(names.take(self.headers@.len() as int) =~= names);
        }
        r
    }

    /// Validates one data row against the current binding: every column that
    /// has both a cell and a binding entry is checked, in column order; within
    /// one cell the first failing check wins, so a cell yields at most one
    /// message. When every record is to be displayed, the row is echoed first.
    #[verifier::loop_isolation(false)]
    fn lint_record(&self, registry: &Vec<Check>, line: usize, record: &Vec<String>) -> (msgs: Vec<
        String,
    >)
        requires
            spec_registry_ok(registry@),
        ensures
            msgs.deep_view() == spec_row_messages(
                self.header_checks.deep_view(),
                record.deep_view(),
            ),
    {
        if self.show_all {
            let rendered = self.display_record(line, record);
            echo_line(rendered.as_str());
        }
        let ghost binding = self.header_checks.deep_view();
        let ghost cells = record.deep_view();
        let n = if self.header_checks.len() < record.len() {
            self.header_checks.len()
        } else {
            record.len()
        };
        let mut msgs: Vec<String> = Vec::new();
        let mut i: usize = 0;
        while i < n
            invariant
                0 <= i <= n,
                msgs.deep_view() =~= spec_row_messages_upto(binding, cells, i as int),
            decreases n - i,
        {
            let keys = &self.header_checks[i];
            let cell = &record[i];
            let mut verdict: Option<String> = None;
            let mut k: usize = 0;
            while k < keys.len()
                invariant
                    0 <= k <= keys@.len(),
                    match spec_first_failure(binding[i as int].take(k as int), cell@) {
                        None => verdict is None,
                        Some(m) => verdict matches Some(s) && s@ == m,
                    },
                decreases keys@.len() - k,
            {
                proof {
                    assert(binding[i as int].take(k + 1).drop_last() =~= binding[i as int].take(
                        k as int,
                    ));
                    assert(binding[i as int].take(k + 1).last() == keys.deep_view()[k as int]);
                }
                if verdict.is_none() {
                    verdict = cell_verdict(registry, keys[k].as_str(), cell.as_str());
                }
                k = k + 1;
            }
            proof {
                assert(binding[i as int].take(keys@.len() as int) =~= binding[i as int]);
            }
            match verdict {
                Some(m) => {
                    msgs.push(m);
                },
                None => {},
            }
            proof {
                assert(msgs.deep_view() =~= spec_row_messages_upto(binding, cells, i + 1));
            }
            i = i + 1;
        }
        proof {
            assert(spec_row_messages(binding, cells) == spec_row_messages_upto(
                binding,
                cells,
                n as int,
            ));
        }
        msgs
    }

    /// Runs the whole lint over one CSV byte stream.
    ///
    /// A stream whose header cannot be read fails fatally and changes
    /// nothing. Otherwise the header binding is computed once, every data
    /// row is validated, and every error — structural or per-cell — is
    /// appended to `errors` in arrival order, rows numbered from 1. The run
    /// succeeds exactly when `errors` ends up empty; on failure the summary
    /// names the target. An empty byte stream is vacuously valid: no header,
    /// no rows, no errors.
    #[verifier::loop_isolation(false)]
    pub fn run(&mut self, data: &[u8]) -> (r: Result<(), String>)
        ensures
            ({
                let parse = csv_parse_of(
                    data@,
                    spec_delimiter(old(self).delimiter),
                    old(self).escape,
                );
                &&& (parse matches CsvModel::Fatal(m) ==> {
                    &&& r matches Err(e) && e@ == m
                    &&& *final (self) == *old(self)
                })
                &&& (parse matches CsvModel::Parsed { headers, rows } ==> {
                    &&& final (self).headers.deep_view() == headers
                    &&& final (self).header_checks.deep_view() == spec_bind(
                        headers,
                        old(self).checks.deep_view(),
                    )
                    &&& final (self).errors.deep_view() == old(self).errors.deep_view()
                        + spec_errors(
                        old(self).filename@,
                        spec_bind(headers, old(self).checks.deep_view()),
                        rows,
                    )
                    &&& (r is Ok <==> final (self).errors@.len() == 0)
                    &&& (r matches Err(e) ==> e@ == old(self).filename@ + " is invalid"@)
                    &&& final (self).filename == old(self).filename
                    &&& final (self).show_all == old(self).show_all
                    &&& final (self).delimiter == old(self).delimiter
                    &&& final (self).escape == old(self).escape
                    &&& final (self).checks == old(self).checks
                })
            }),
            data@.len() == 0 && old(self).errors@.len() == 0 ==> r is Ok,
            ({
                let parse = csv_parse_of(
                    data@,
                    spec_delimiter(old(self).delimiter),
                    old(self).escape,
                );
                parse matches CsvModel::Parsed { headers, rows } && rows.len() == 0 && old(
                    self,
                ).errors@.len() == 0 ==> r is Ok
            }),
    {
        let registry = Check::all();
        let delimiter = match self.delimiter {
            Some(d) => d,
            None => 44u8,
        };
        let parsed = parse_csv(data, delimiter, self.escape);
        match parsed {
            ParsedCsv::Fatal(message) => Err(message),
            ParsedCsv::Parsed { headers, rows } => {
                self.headers = headers;
                let bound = self.init_header_checks(&registry);
                self.header_checks = bound;
                let ghost binding = self.header_checks.deep_view();
                let ghost fname = self.filename@;
                let ghost rows_model = rows.deep_view();
                let ghost errors_before = self.errors.deep_view();
                let ghost headers_set = self.headers;
                let ghost header_checks_set = self.header_checks;
                let mut j: usize = 0;
                while j < rows.len()
                    invariant
                        0 <= j <= rows@.len(),
                        self.errors.deep_view() =~= errors_before + spec_errors(
                            fname,
                            binding,
                            rows_model.take(j as int),
                        ),
                        self.filename == old(self).filename,
                        self.show_all == old(self).show_all,
                        self.delimiter == old(self).delimiter,
                        self.escape == old(self).escape,
                        self.checks == old(self).checks,
                        self.headers == headers_set,
                        self.header_checks == header_checks_set,
                    decreases rows@.len() - j,
                {
                    proof {
                        assert(rows_model.take(j + 1).drop_last() =~= rows_model.take(j as int));
                        assert(rows_model.take(j + 1).last() == rows_model[j as int]);
                    }
                    let ghost errors_at_row = self.errors.deep_view();
                    match &rows[j] {
                        ParsedRow::Malformed(message) => {
                            let e = LintError::Csv { message: message.clone() };
                            let ghost e_snap = e;
                            let ghost pre = self.errors;
                            self.errors.push(e);
                            proof {
                                crate::lint_error::lemma_errors_push_deep_view(
                                    pre,
                                    self.errors,
                                    e_snap,
                                );
                                assert(rows_model[j as int] == RowModel::Malformed(message@));
                                assert(spec_row_contrib(
                                    fname,
                                    binding,
                                    rows_model[j as int],
                                    j + 1,
                                ) =~= seq![e_snap@]);
                                assert(self.errors.deep_view() =~= errors_before + spec_errors(
                                    fname,
                                    binding,
                                    rows_model.take(j + 1),
                                ));
                            }
                        },
                        ParsedRow::Cells(cells) => {
                            let line = j + 1;
                            let msgs = self.lint_record(&registry, line, cells);
                            let ghost row_msgs = spec_row_messages(binding, cells.deep_view());
                            let ghost added = spec_row_contrib(
                                fname,
                                binding,
                                rows_model[j as int],
                                j + 1,
                            );
                            proof {
                                assert(rows_model[j as int] == RowModel::Cells(cells.deep_view()));
                                assert(row_msgs == msgs.deep_view());
                                assert(added.len() == msgs@.len());
                            }
                            let mut k: usize = 0;
                            while k < msgs.len()
                                invariant
                                    0 <= k <= msgs@.len(),
                                    self.errors.deep_view() =~= errors_at_row + added.take(
                                        k as int,
                                    ),
                                    self.filename == old(self).filename,
                                    self.show_all == old(self).show_all,
                                    self.delimiter == old(self).delimiter,
                                    self.escape == old(self).escape,
                                    self.checks == old(self).checks,
                                    self.headers == headers_set,
                                    self.header_checks == header_checks_set,
                                decreases msgs@.len() - k,
                            {
                                let record = display_record(cells);
                                let e = LintError::Check {
                                    filename: self.filename.clone(),
                                    line,
                                    record,
                                    message: msgs[k].clone(),
                                };
                                let ghost e_snap = e;
                                let ghost pre = self.errors;
                                self.errors.push(e);
                                proof {
                                    crate::lint_error::lemma_errors_push_deep_view(
                                        pre,
                                        self.errors,
                                        e_snap,
                                    );
                                    assert(e_snap@ == (LintErrorModel::Check {
                                        filename: fname,
                                        line: line as int,
                                        record: spec_join(cells.deep_view()),
                                        message: row_msgs[k as int],
                                    }));
                                    assert(added[k as int] == (LintErrorModel::Check {
                                        filename: fname,
                                        line: line as int,
                                        record: spec_join(cells.deep_view()),
                                        message: row_msgs[k as int],
                                    }));
                                    assert(added.take(k + 1).drop_last() =~= added.take(
                                        k as int,
                                    ));
                                    assert(added.take(k + 1).last() == added[k as int]);
                                    assert(self.errors.deep_view() =~= errors_at_row
                                        + added.take(k + 1));
                                }
                                k = k + 1;
                            }
                            proof {
                                assert(added.take(msgs@.len() as int) =~= added);
                                assert(self.errors.deep_view() =~= errors_before + spec_errors(
                                    fname,
                                    binding,
                                    rows_model.take(j + 1),
                                ));
                            }
                        },
                    }
                    j = j + 1;
                }
                proof {
                    assert(rows_model.take(rows@.len() as int) =~= rows_model);
                }
                if self.errors.len() > 0 {
                    let mut message = self.filename.clone();
                    message.append(" is invalid");
                    Err(message)
                } else {
                    Ok(())
                }
            },
        }
    }
}

} // verus!
