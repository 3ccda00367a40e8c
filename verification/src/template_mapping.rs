//! The field-mapping engine: resolves template expressions against table
//! rows and assembles the typed output records.

use vstd::prelude::*;

use crate::numeric::is_f64_literal;
use crate::numeric::check_f64_literal;
use crate::numeric::parse_i64;
use crate::numeric::parse_i64_spec;
use crate::scanner::scan_placeholders;
use crate::scanner::scan_spec;
use crate::scanner::placeholder_token;
use crate::scanner::token_of;
use crate::task_list::cell_at;
use crate::task_list::row_count;
use crate::task_list::TaskList;
use crate::text::find_from;
use crate::text::is_match_at;
use crate::text::replace_first;
use crate::text::replace_first_spec;
use crate::value::ValueView;

verus! {

/// Why a mapping run failed. Any of these aborts the whole batch.
#[derive(Debug, PartialEq)]
pub enum TemplateMappingError {
    /// A placeholder names an alias absent from the binding table.
    UnboundAlias(String),
    /// A bound column could not deliver a cell: the column is absent from
    /// the table, or the row index is past its end. Carries the column name.
    CellLookupFailed(String),
    /// A numeric-typed output field's expression holds more than one
    /// placeholder; numeric fields support at most one substitution.
    UnsupportedMultiPlaceholderNumeric,
    /// The resolved raw text of a numeric-typed output field does not parse
    /// as the field's numeric type. Carries the raw text.
    NumberParseFailure(String),
    /// The table has no columns, so it has no well-defined row count.
    EmptyTable,
}

/// Mathematical model of a mapping failure.
pub enum MappingErrorView {
    UnboundAlias(Seq<char>),
    CellLookupFailed(Seq<char>),
    UnsupportedMultiPlaceholderNumeric,
    NumberParseFailure(Seq<char>),
    EmptyTable,
}

impl View for TemplateMappingError {
    type V = MappingErrorView;

    open spec fn view(&self) -> MappingErrorView {
        match self {
            TemplateMappingError::UnboundAlias(a) => MappingErrorView::UnboundAlias(a@),
            TemplateMappingError::CellLookupFailed(c) => MappingErrorView::CellLookupFailed(c@),
            TemplateMappingError::UnsupportedMultiPlaceholderNumeric
                => MappingErrorView::UnsupportedMultiPlaceholderNumeric,
            TemplateMappingError::NumberParseFailure(s) => MappingErrorView::NumberParseFailure(
                s@,
            ),
            TemplateMappingError::EmptyTable => MappingErrorView::EmptyTable,
        }
    }
}

/// The seven declared output fields of a mapping, each a template expression.
#[derive(Debug)]
pub struct TemplateMappingOutputs {
    pub name: String,
    pub quantity: String,
    pub price: String,
    pub description: String,
    pub sub_total: String,
    pub total: String,
    pub unit_name: String,
}

/// Mathematical model of the output templates.
pub struct OutputsView {
    pub name: Seq<char>,
    pub quantity: Seq<char>,
    pub price: Seq<char>,
    pub description: Seq<char>,
    pub sub_total: Seq<char>,
    pub total: Seq<char>,
    pub unit_name: Seq<char>,
}

impl View for TemplateMappingOutputs {
    type V = OutputsView;

    open spec fn view(&self) -> OutputsView {
        OutputsView {
            name: self.name@,
            quantity: self.quantity@,
            price: self.price@,
            description: self.description@,
            sub_total: self.sub_total@,
            total: self.total@,
            unit_name: self.unit_name@,
        }
    }
}

/// A declarative field mapping: descriptive names, the alias-to-column
/// binding table, and the seven output templates.
#[derive(Debug)]
pub struct TemplateMapping {
    pub invoice_name: String,
    pub template_name: String,
    pub inputs: Vec<(String, String)>,
    pub outputs: TemplateMappingOutputs,
}

/// Mathematical model of a field mapping.
pub struct TemplateMappingView {
    pub invoice_name: Seq<char>,
    pub template_name: Seq<char>,
    pub inputs: Seq<(Seq<char>, Seq<char>)>,
    pub outputs: OutputsView,
}

impl View for TemplateMapping {
    type V = TemplateMappingView;

    open spec fn view(&self) -> TemplateMappingView {
        TemplateMappingView {
            invoice_name: self.invoice_name@,
            template_name: self.template_name@,
            inputs: self.inputs.deep_view(),
            outputs: self.outputs@,
        }
    }
}

/// One resolved output row. Text fields are fully substituted text; the
/// quantity is a parsed integer; the three monetary fields carry raw text
/// that is guaranteed to parse as a 64-bit floating-point number.
#[derive(Debug)]
pub struct ComputedMappingOutput {
    pub name: String,
    pub quantity: i64,
    pub price: String,
    pub description: String,
    pub sub_total: String,
    pub total: String,
    pub unit_name: String,
}

/// Mathematical model of one resolved output row.
pub struct RecordView {
    pub name: Seq<char>,
    pub quantity: i64,
    pub price: Seq<char>,
    pub description: Seq<char>,
    pub sub_total: Seq<char>,
    pub total: Seq<char>,
    pub unit_name: Seq<char>,
}

impl View for ComputedMappingOutput {
    type V = RecordView;

    open spec fn view(&self) -> RecordView {
        RecordView {
            name: self.name@,
            quantity: self.quantity,
            price: self.price@,
            description: self.description@,
            sub_total: self.sub_total@,
            total: self.total@,
            unit_name: self.unit_name@,
        }
    }
}

impl DeepView for ComputedMappingOutput {
    type V = RecordView;

    open spec fn deep_view(&self) -> RecordView {
        self.view()
    }
}

/// The column bound to `alias`, if the binding table has an entry for it.
/// When several entries share an alias, the first one wins.
pub open spec fn binding_of(inputs: Seq<(Seq<char>, Seq<char>)>, alias: Seq<char>) -> Option<
    Seq<char>,
>
    decreases inputs.len(),
{
    if inputs.len() == 0 {
        None
    } else if inputs[0].0 == alias {
        Some(inputs[0].1)
    } else {
        binding_of(inputs.skip(1), alias)
    }
}

/// Text resolution: substitutes the aliases in order of appearance, each
/// replacing the first remaining occurrence of its literal `${alias}` token
/// in the working text, so that substituted cell text is never re-scanned.
pub open spec fn resolve_text_spec(
    text: Seq<char>,
    aliases: Seq<Seq<char>>,
    inputs: Seq<(Seq<char>, Seq<char>)>,
    cols: Seq<(Seq<char>, Seq<ValueView>)>,
    row: int,
) -> Result<Seq<char>, MappingErrorView>
    decreases aliases.len(),
{
    if aliases.len() == 0 {
        Ok(text)
    } else {
        let alias = aliases[0];
        match binding_of(inputs, alias) {
            None => Err(MappingErrorView::UnboundAlias(alias)),
            Some(col) => match cell_at(cols, col, row) {
                Err(_) => Err(MappingErrorView::CellLookupFailed(col)),
                Ok(v) => resolve_text_spec(
                    replace_first_spec(text, token_of(alias), v.to_text()),
                    aliases.skip(1),
                    inputs,
                    cols,
                    row,
                ),
            },
        }
    }
}

/// What resolving a text-typed output field yields on one row.
pub open spec fn apply_line_str_spec(
    inputs: Seq<(Seq<char>, Seq<char>)>,
    line: Seq<char>,
    cols: Seq<(Seq<char>, Seq<ValueView>)>,
    row: int,
) -> Result<Seq<char>, MappingErrorView> {
    resolve_text_spec(line, scan_spec(line), inputs, cols, row)
}

/// The raw text of a numeric-typed output field on one row: the single
/// placeholder's cell text, or the literal expression when there is no
/// placeholder; more than one placeholder is unsupported.
pub open spec fn raw_number_spec(
    inputs: Seq<(Seq<char>, Seq<char>)>,
    line: Seq<char>,
    cols: Seq<(Seq<char>, Seq<ValueView>)>,
    row: int,
) -> Result<Seq<char>, MappingErrorView> {
    let aliases = scan_spec(line);
    if aliases.len() >= 2 {
        Err(MappingErrorView::UnsupportedMultiPlaceholderNumeric)
    } else if aliases.len() == 1 {
        match binding_of(inputs, aliases[0]) {
            None => Err(MappingErrorView::UnboundAlias(aliases[0])),
            Some(col) => match cell_at(cols, col, row) {
                Err(_) => Err(MappingErrorView::CellLookupFailed(col)),
                Ok(v) => Ok(v.to_text()),
            },
        }
    } else {
        Ok(line)
    }
}

/// What resolving an integer-typed output field yields on one row.
pub open spec fn apply_line_i64_spec(
    inputs: Seq<(Seq<char>, Seq<char>)>,
    line: Seq<char>,
    cols: Seq<(Seq<char>, Seq<ValueView>)>,
    row: int,
) -> Result<i64, MappingErrorView> {
    match raw_number_spec(inputs, line, cols, row) {
        Err(e) => Err(e),
        Ok(raw) => match parse_i64_spec(raw) {
            Some(v) => Ok(v),
            None => Err(MappingErrorView::NumberParseFailure(raw)),
        },
    }
}

/// What resolving a floating-point-typed output field yields on one row:
/// its raw text, checked against the floating-point literal grammar.
pub open spec fn apply_line_number_text_spec(
    inputs: Seq<(Seq<char>, Seq<char>)>,
    line: Seq<char>,
    cols: Seq<(Seq<char>, Seq<ValueView>)>,
    row: int,
) -> Result<Seq<char>, MappingErrorView> {
    match raw_number_spec(inputs, line, cols, row) {
        Err(e) => Err(e),
        Ok(raw) => if is_f64_literal(raw) {
            Ok(raw)
        } else {
            Err(MappingErrorView::NumberParseFailure(raw))
        },
    }
}

/// The view of an exec text-resolution result.
pub open spec fn str_result_view(r: Result<String, TemplateMappingError>) -> Result<
    Seq<char>,
    MappingErrorView,
> {
    match r {
        Ok(s) => Ok(s@),
        Err(e) => Err(e@),
    }
}

/// The view of an exec integer-resolution result.
pub open spec fn i64_result_view(r: Result<i64, TemplateMappingError>) -> Result<
    i64,
    MappingErrorView,
> {
    match r {
        Ok(v) => Ok(v),
        Err(e) => Err(e@),
    }
}

/// Looks an alias up in the binding table.
fn lookup_binding<'a>(inputs: &'a Vec<(String, String)>, alias: &str) -> (r: Option<&'a String>)
    ensures
        match r {
            Some(c) => binding_of(inputs.deep_view(), alias@) == Some(c@),
            None => binding_of(inputs.deep_view(), alias@) == None::<Seq<char>>,
        },
{
    let n = inputs.len();
    proof {
        assert(inputs.deep_view().skip(0) =~= inputs.deep_view());
    }
    let mut i: usize = 0;
    while i < n
        invariant
            0 <= i <= n,
            n == inputs.len(),
            binding_of(inputs.deep_view(), alias@) == binding_of(
                inputs.deep_view().skip(i as int),
                alias@,
            ),
        decreases n - i,
    {
        proof {
            assert(inputs.deep_view()[i as int] == (inputs[i as int].0@, inputs[i as int].1@));
            assert(inputs.deep_view().skip(i as int)[0] == inputs.deep_view()[i as int]);
        }
        if crate::text::str_eq(inputs[i].0.as_str(), alias) {
            return Some(&inputs[i].1);
        }
        proof {
            assert(inputs.deep_view().skip(i as int).skip(1) =~= inputs.deep_view().skip(i + 1));
        }
        i = i + 1;
    }
    proof {
        assert(inputs.deep_view().skip(n as int) =~= Seq::<(Seq<char>, Seq<char>)>::empty());
    }
    None
}

impl TemplateMapping {
    /// Resolves a text-typed template expression against one table row:
    /// every placeholder, in order of appearance, is looked up through the
    /// binding table and replaced by its cell's printable text.
    pub fn apply_line_str(&self, line: &str, data: &TaskList, index: usize) -> (r:
        Result<String, TemplateMappingError>)
        ensures
            str_result_view(r) == apply_line_str_spec(self@.inputs, line@, data@, index as int),
    {
        let aliases = scan_placeholders(line);
        let ghost gal = aliases.deep_view();
        let mut res: String = line.to_owned();
        let mut k: usize = 0;
        proof {
            assert(gal.skip(0) =~= gal);
        }
        while k < aliases.len()
            invariant
                0 <= k <= aliases.len(),
                gal == aliases.deep_view(),
                gal == scan_spec(line@),
                resolve_text_spec(res@, gal.skip(k as int), self@.inputs, data@, index as int)
                    == resolve_text_spec(line@, gal, self@.inputs, data@, index as int),
            decreases aliases.len() - k,
        {
            proof {
                assert(gal.skip(k as int)[0] == gal[k as int]);
                assert(gal[k as int] == aliases[k as int]@);
            }
            let alias: &String = &aliases[k];
            match lookup_binding(&self.inputs, alias.as_str()) {
                None => {
                    return Err(TemplateMappingError::UnboundAlias(alias.clone()));
                },
                Some(col_name) => {
                    match data.get(col_name.as_str(), index) {
                        Err(_) => {
                            return Err(TemplateMappingError::CellLookupFailed(col_name.clone()));
                        },
                        Ok(cell) => {
                            let token = placeholder_token(alias.as_str());
                            let cell_text = cell.to_string();
                            let ghost prev = res@;
                            res = replace_first(res.as_str(), token.as_str(), cell_text.as_str());
                            proof {
                                assert(gal.skip(k as int).skip(1) =~= gal.skip(k + 1));
                                assert(resolve_text_spec(
                                    prev,
                                    gal.skip(k as int),
                                    self@.inputs,
                                    data@,
                                    index as int,
                                ) == resolve_text_spec(
                                    res@,
                                    gal.skip(k + 1),
                                    self@.inputs,
                                    data@,
                                    index as int,
                                ));
                            }
                        },
                    }
                },
            }
            k = k + 1;
        }
        proof {
            assert(gal.skip(aliases.len() as int) =~= Seq::<Seq<char>>::empty());
        }
        Ok(res)
    }

    /// Resolves the raw text of a numeric-typed template expression against
    /// one table row: at most one placeholder is supported; with one, the
    /// raw text is that cell's printable text alone; with none, it is the
    /// expression itself.
    fn resolve_number_raw(&self, line: &str, data: &TaskList, index: usize) -> (r: Result<
        String,
        TemplateMappingError,
    >)
        ensures
            str_result_view(r) == raw_number_spec(self@.inputs, line@, data@, index as int),
    {
        let aliases = scan_placeholders(line);
        proof {
            assert(aliases.deep_view() == scan_spec(line@));
            assert(aliases.deep_view().len() == aliases.len());
        }
        if aliases.len() >= 2 {
            return Err(TemplateMappingError::UnsupportedMultiPlaceholderNumeric);
        }
        if aliases.len() == 1 {
            proof {
                assert(aliases.deep_view()[0] == aliases[0]@);
            }
            let alias: &String = &aliases[0];
            match lookup_binding(&self.inputs, alias.as_str()) {
                None => Err(TemplateMappingError::UnboundAlias(alias.clone())),
                Some(col_name) => {
                    match data.get(col_name.as_str(), index) {
                        Err(_) => Err(TemplateMappingError::CellLookupFailed(col_name.clone())),
                        Ok(cell) => Ok(cell.to_string()),
                    }
                },
            }
        } else {
            Ok(line.to_owned())
        }
    }

    /// Resolves an integer-typed output field on one row and parses the raw
    /// text as a 64-bit signed integer.
    pub fn apply_line_i64(&self, line: &str, data: &TaskList, index: usize) -> (r: Result<
        i64,
        TemplateMappingError,
    >)
        ensures
            i64_result_view(r) == apply_line_i64_spec(self@.inputs, line@, data@, index as int),
    {
        match self.resolve_number_raw(line, data, index) {
            Err(e) => Err(e),
            Ok(raw) => match parse_i64(raw.as_str()) {
                Some(v) => Ok(v),
                None => Err(TemplateMappingError::NumberParseFailure(raw)),
            },
        }
    }

    /// Resolves a floating-point-typed output field on one row and checks
    /// the raw text against the floating-point literal grammar; the returned
    /// text is guaranteed to parse as a 64-bit floating-point number.
    pub fn apply_line_number_text(&self, line: &str, data: &TaskList, index: usize) -> (r: Result<
        String,
        TemplateMappingError,
    >)
        ensures
            str_result_view(r) == apply_line_number_text_spec(
                self@.inputs,
                line@,
                data@,
                index as int,
            ),
    {
        match self.resolve_number_raw(line, data, index) {
            Err(e) => Err(e),
            Ok(raw) => {
                if check_f64_literal(raw.as_str()) {
                    Ok(raw)
                } else {
                    Err(TemplateMappingError::NumberParseFailure(raw))
                }
            },
        }
    }
}

/// One fully resolved output row: the seven fields evaluated in their fixed
/// order - name, quantity, price, description, sub_total, total, unit_name -
/// with the first failure aborting the row.
pub open spec fn apply_row_spec(
    m: TemplateMappingView,
    cols: Seq<(Seq<char>, Seq<ValueView>)>,
    row: int,
) -> Result<RecordView, MappingErrorView> {
    match apply_line_str_spec(m.inputs, m.outputs.name, cols, row) {
        Err(e) => Err(e),
        Ok(name) => match apply_line_i64_spec(m.inputs, m.outputs.quantity, cols, row) {
            Err(e) => Err(e),
            Ok(quantity) => match apply_line_number_text_spec(m.inputs, m.outputs.price, cols, row) {
                Err(e) => Err(e),
                Ok(price) => match apply_line_str_spec(m.inputs, m.outputs.description, cols, row) {
                    Err(e) => Err(e),
                    Ok(description) => match apply_line_number_text_spec(
                        m.inputs,
                        m.outputs.sub_total,
                        cols,
                        row,
                    ) {
                        Err(e) => Err(e),
                        Ok(sub_total) => match apply_line_number_text_spec(
                            m.inputs,
                            m.outputs.total,
                            cols,
                            row,
                        ) {
                            Err(e) => Err(e),
                            Ok(total) => match apply_line_str_spec(
                                m.inputs,
                                m.outputs.unit_name,
                                cols,
                                row,
                            ) {
                                Err(e) => Err(e),
                                Ok(unit_name) => Ok(
                                    RecordView {
                                        name,
                                        quantity,
                                        price,
                                        description,
                                        sub_total,
                                        total,
                                        unit_name,
                                    },
                                ),
                            },
                        },
                    },
                },
            },
        },
    }
}

/// The first `n` output rows, in row order; the first failing row's error
/// aborts the whole batch.
pub open spec fn apply_rows_spec(
    m: TemplateMappingView,
    cols: Seq<(Seq<char>, Seq<ValueView>)>,
    n: nat,
) -> Result<Seq<RecordView>, MappingErrorView>
    decreases n,
{
    if n == 0 {
        Ok(Seq::empty())
    } else {
        match apply_rows_spec(m, cols, (n - 1) as nat) {
            Err(e) => Err(e),
            Ok(recs) => match apply_row_spec(m, cols, n - 1) {
                Err(e) => Err(e),
                Ok(rec) => Ok(recs.push(rec)),
            },
        }
    }
}

/// What a whole mapping run yields: one record per logical row of the
/// table, in row order, or the first failure; a table with no columns
/// fails outright.
pub open spec fn apply_spec(m: TemplateMappingView, cols: Seq<(Seq<char>, Seq<ValueView>)>) -> Result<
    Seq<RecordView>,
    MappingErrorView,
> {
    if cols.len() == 0 {
        Err(MappingErrorView::EmptyTable)
    } else {
        apply_rows_spec(m, cols, row_count(cols))
    }
}

/// The view of an exec whole-run result.
pub open spec fn records_result_view(r: Result<Vec<ComputedMappingOutput>, TemplateMappingError>) -> Result<
    Seq<RecordView>,
    MappingErrorView,
> {
    match r {
        Ok(v) => Ok(v.deep_view()),
        Err(e) => Err(e@),
    }
}

/// Once some row has failed, every longer prefix of rows fails the same way.
proof fn lemma_rows_error_persists(
    m: TemplateMappingView,
    cols: Seq<(Seq<char>, Seq<ValueView>)>,
    k: nat,
    n: nat,
)
    requires
        k <= n,
        apply_rows_spec(m, cols, k) matches Err(_),
    ensures
        apply_rows_spec(m, cols, n) == apply_rows_spec(m, cols, k),
    decreases n - k,
{
    if k < n {
        lemma_rows_error_persists(m, cols, k, (n - 1) as nat);
    }
}

impl TemplateMapping {
    /// Evaluates the mapping over every logical row of the table, in row
    /// order, resolving the seven output fields of each row in their fixed
    /// order. The first field evaluation that fails aborts the entire run:
    /// no partial results are returned and no row is skipped. On success,
    /// yields one record per row, in row order.
    pub fn apply(&self, list: &TaskList) -> (r: Result<
        Vec<ComputedMappingOutput>,
        TemplateMappingError,
    >)
        ensures
            records_result_view(r) == apply_spec(self@, list@),
    {
        let n: usize = match list.len() {
            None => {
                return Err(TemplateMappingError::EmptyTable);
            },
            Some(n) => n,
        };
        let mut out: Vec<ComputedMappingOutput> = Vec::new();
        let mut index: usize = 0;
        proof {
            assert(out.deep_view() =~= Seq::<RecordView>::empty());
        }
        while index < n
            invariant
                0 <= index <= n,
                list@.len() > 0,
                n == row_count(list@),
                apply_rows_spec(self@, list@, index as nat) == Ok::<
                    Seq<RecordView>,
                    MappingErrorView,
                >(out.deep_view()),
            decreases n - index,
        {
            let name = match self.apply_line_str(self.outputs.name.as_str(), list, index) {
                Ok(v) => v,
                Err(e) => {
                    proof {
                        lemma_rows_error_persists(self@, list@, (index + 1) as nat, n as nat);
                    }
                    return Err(e);
                },
            };
            let quantity = match self.apply_line_i64(self.outputs.quantity.as_str(), list, index) {
                Ok(v) => v,
                Err(e) => {
                    proof {
                        lemma_rows_error_persists(self@, list@, (index + 1) as nat, n as nat);
                    }
                    return Err(e);
                },
            };
            let price = match self.apply_line_number_text(
                self.outputs.price.as_str(),
                list,
                index,
            ) {
                Ok(v) => v,
                Err(e) => {
                    proof {
                        lemma_rows_error_persists(self@, list@, (index + 1) as nat, n as nat);
                    }
                    return Err(e);
                },
            };
            let description = match self.apply_line_str(
                self.outputs.description.as_str(),
                list,
                index,
            ) {
                Ok(v) => v,
                Err(e) => {
                    proof {
                        lemma_rows_error_persists(self@, list@, (index + 1) as nat, n as nat);
                    }
                    return Err(e);
                },
            };
            let sub_total = match self.apply_line_number_text(
                self.outputs.sub_total.as_str(),
                list,
                index,
            ) {
                Ok(v) => v,
                Err(e) => {
                    proof {
                        lemma_rows_error_persists(self@, list@, (index + 1) as nat, n as nat);
                    }
                    return Err(e);
                },
            };
            let total = match self.apply_line_number_text(
                self.outputs.total.as_str(),
                list,
                index,
            ) {
                Ok(v) => v,
                Err(e) => {
                    proof {
                        lemma_rows_error_persists(self@, list@, (index + 1) as nat, n as nat);
                    }
                    return Err(e);
                },
            };
            let unit_name = match self.apply_line_str(
                self.outputs.unit_name.as_str(),
                list,
                index,
            ) {
                Ok(v) => v,
                Err(e) => {
                    proof {
                        lemma_rows_error_persists(self@, list@, (index + 1) as nat, n as nat);
                    }
                    return Err(e);
                },
            };
            let rec = ComputedMappingOutput {
                name,
                quantity,
                price,
                description,
                sub_total,
                total,
                unit_name,
            };
            let ghost odv = out.deep_view();
            let ghost recv = rec@;
            out.push(rec);
            proof {
                assert(out.deep_view() =~= odv.push(recv));
                assert(apply_row_spec(self@, list@, index as int) == Ok::<
                    RecordView,
                    MappingErrorView,
                >(recv));
            }
            index = index + 1;
        }
        Ok(out)
    }
}

/// A successful mapping run yields exactly one record for each of the
/// first `n` rows; a batch is never partial.
pub proof fn lemma_one_record_per_row(
    m: TemplateMappingView,
    cols: Seq<(Seq<char>, Seq<ValueView>)>,
    n: nat,
)
    ensures
        apply_rows_spec(m, cols, n) matches Ok(recs) ==> recs.len() == n,
    decreases n,
{
    if n > 0 {
        lemma_one_record_per_row(m, cols, (n - 1) as nat);
    }
}

/// A template with no placeholders resolves to itself, unchanged - the
/// empty template included.
pub proof fn lemma_resolve_text_no_placeholders(
    inputs: Seq<(Seq<char>, Seq<char>)>,
    line: Seq<char>,
    cols: Seq<(Seq<char>, Seq<ValueView>)>,
    row: int,
)
    requires
        scan_spec(line).len() == 0,
    ensures
        apply_line_str_spec(inputs, line, cols, row) == Ok::<Seq<char>, MappingErrorView>(line),
{
}

/// A template that is exactly one placeholder, bound to a column whose cell
/// exists at the addressed row, resolves to that cell's printable text.
pub proof fn lemma_resolve_single_placeholder(
    inputs: Seq<(Seq<char>, Seq<char>)>,
    alias: Seq<char>,
    col: Seq<char>,
    v: ValueView,
    cols: Seq<(Seq<char>, Seq<ValueView>)>,
    row: int,
)
    requires
        forall|i: int| 0 <= i < alias.len() ==> alias[i] != '$' && alias[i] != '}',
        binding_of(inputs, alias) == Some(col),
        cell_at(cols, col, row) == Ok::<ValueView, crate::task_list::CellError>(v),
    ensures
        apply_line_str_spec(inputs, token_of(alias), cols, row) == Ok::<
            Seq<char>,
            MappingErrorView,
        >(v.to_text()),
{
    crate::scanner::lemma_scan_single_token(alias);
    let t = token_of(alias);
    let aliases = scan_spec(t);
    assert(aliases[0] == alias);
    assert(is_match_at(t, t, 0)) by {
        assert(t.subrange(0, t.len() as int) =~= t);
    }
    assert(find_from(t, t, 0) == Some(0int));
    let rep = v.to_text();
    assert(replace_first_spec(t, t, rep) =~= rep);
    assert(aliases.skip(1) =~= Seq::<Seq<char>>::empty());
    assert(resolve_text_spec(replace_first_spec(t, t, rep), aliases.skip(1), inputs, cols, row)
        == Ok::<Seq<char>, MappingErrorView>(replace_first_spec(t, t, rep)));
    assert(replace_first_spec(t, t, rep) == rep);
}

/// A numeric-typed expression with two or more placeholders always fails
/// with the multi-placeholder error, whatever the row and the data.
pub proof fn lemma_numeric_multi_placeholder(
    inputs: Seq<(Seq<char>, Seq<char>)>,
    line: Seq<char>,
    cols: Seq<(Seq<char>, Seq<ValueView>)>,
    row: int,
)
    requires
        scan_spec(line).len() >= 2,
    ensures
        apply_line_i64_spec(inputs, line, cols, row) == Err::<i64, MappingErrorView>(
            MappingErrorView::UnsupportedMultiPlaceholderNumeric,
        ),
        apply_line_number_text_spec(inputs, line, cols, row) == Err::<Seq<char>, MappingErrorView>(
            MappingErrorView::UnsupportedMultiPlaceholderNumeric,
        ),
{
}

/// When the first placeholder's alias has no entry in the binding table,
/// resolution fails with that alias, whatever the row and the data.
pub proof fn lemma_unbound_alias(
    inputs: Seq<(Seq<char>, Seq<char>)>,
    line: Seq<char>,
    cols: Seq<(Seq<char>, Seq<ValueView>)>,
    row: int,
)
    requires
        scan_spec(line).len() >= 1,
        binding_of(inputs, scan_spec(line)[0]) == None::<Seq<char>>,
    ensures
        apply_line_str_spec(inputs, line, cols, row) == Err::<Seq<char>, MappingErrorView>(
            MappingErrorView::UnboundAlias(scan_spec(line)[0]),
        ),
        scan_spec(line).len() == 1 ==> apply_line_i64_spec(inputs, line, cols, row) == Err::<
            i64,
            MappingErrorView,
        >(MappingErrorView::UnboundAlias(scan_spec(line)[0])),
        scan_spec(line).len() == 1 ==> apply_line_number_text_spec(inputs, line, cols, row)
            == Err::<Seq<char>, MappingErrorView>(MappingErrorView::UnboundAlias(
            scan_spec(line)[0],
        )),
{
}

} // verus!
