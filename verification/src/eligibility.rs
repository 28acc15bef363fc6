//! Whether the schema of a table allows the table to become a conflict-free
//! replicated relation.
//!
//! Five rules are tried in a fixed order, each on one catalog read. The first
//! rule that the table breaks decides; the reads of the later rules are then
//! never asked for.

use crate::catalog::{
    CatalogRead, ExtendedColumn, IndexInfo, IndexModel, Reading, SchemaFacts, SchemaReads,
};
use crate::column::{ColumnInfo, ColumnModel, TableModel};
use crate::error::{query_failure, SchemaError, SchemaErrorModel};
use crate::introspect::is_shape_of;
use crate::order::in_key;
use vstd::prelude::*;
use vstd::utf8::{encode_utf8, is_ascii_chars, is_ascii_chars_encode_utf8};

verus! {

/// A rule that a table must keep to be replicated.
#[derive(Debug, Clone, Copy, PartialEq, Eq, Structural)]
pub enum Rule {
    /// No index but that of the primary key enforces uniqueness: two replicas
    /// could each accept a row that the other's constraint forbids.
    NoStrayUniqueIndex,
    /// The table declares a primary key: a row needs an identity that every
    /// replica derives alike.
    PrimaryKeyRequired,
    /// The primary key is not assigned by a counter: two replicas would give
    /// the same key to unrelated rows.
    NoAutoincrement,
    /// The table declares no foreign-key constraint: a referenced row may
    /// arrive after the row that refers to it.
    NoForeignKeys,
    /// Every column outside the key that rejects NULL declares a default: a
    /// replica on an older schema must be able to fill it.
    RequiredColumnsHaveDefaults,
}

/// Where the validation of a table stands.
#[derive(Debug, PartialEq, Eq)]
pub enum Eligibility {
    /// The caller is to make this read, record its answer and ask again.
    Read(CatalogRead),
    /// The table keeps every rule.
    Compatible,
    /// The table breaks `rule`; no later rule was tried.
    Incompatible {
        /// The first rule that the table breaks.
        rule: Rule,
        /// Says to a person what is wrong with the table.
        diagnostic: String,
    },
    /// The eligibility could not be determined.
    Failed(SchemaError),
}

/// Mathematical model of an [`Eligibility`].
pub enum EligibilityModel {
    Read(CatalogRead),
    Compatible,
    Incompatible { rule: Rule, diagnostic: Seq<char> },
    Failed(SchemaErrorModel),
}

impl View for Eligibility {
    type V = EligibilityModel;

    open spec fn view(&self) -> EligibilityModel {
        match self {
            Eligibility::Read(read) => EligibilityModel::Read(*read),
            Eligibility::Compatible => EligibilityModel::Compatible,
            Eligibility::Incompatible { rule, diagnostic } => EligibilityModel::Incompatible {
                rule: *rule,
                diagnostic: diagnostic@,
            },
            Eligibility::Failed(error) => EligibilityModel::Failed(error@),
        }
    }
}

impl EligibilityModel {
    /// The verdict, once there is one: whether the table is compatible, and
    /// the diagnostic if it is not.
    pub open spec fn verdict(self) -> Option<(bool, Option<Seq<char>>)> {
        match self {
            EligibilityModel::Compatible => Some((true, None)),
            EligibilityModel::Incompatible { diagnostic, .. } => Some((false, Some(diagnostic))),
            _ => None,
        }
    }
}

impl Eligibility {
    /// The verdict, once there is one: whether the table is compatible, and
    /// the diagnostic if it is not.
    pub fn verdict(&self) -> (verdict: Option<(bool, Option<&str>)>)
        ensures
            match verdict {
                None => self@.verdict() is None,
                Some((compatible, None)) => self@.verdict() == Some((compatible, None::<Seq<char>>)),
                Some((compatible, Some(text))) => self@.verdict() == Some((compatible, Some(text@))),
            },
    {
        match self {
            Eligibility::Compatible => Some((true, None)),
            Eligibility::Incompatible { diagnostic, .. } => Some((false, Some(diagnostic.as_str()))),
            _ => None,
        }
    }
}

/// What stands before the name of the table in the diagnostic of `rule`.
pub open spec fn diagnostic_prefix(rule: Rule) -> Seq<char> {
    match rule {
        Rule::NoAutoincrement => ""@,
        _ => "Table "@,
    }
}

/// What follows the name of the table in the diagnostic of `rule`.
pub open spec fn diagnostic_suffix(rule: Rule) -> Seq<char> {
    match rule {
        Rule::NoStrayUniqueIndex =>
            " has unique indices besides the primary key. This is not allowed for CRRs"@,
        Rule::PrimaryKeyRequired => " has no primary key. CRRs must have a primary key"@,
        Rule::NoAutoincrement =>
            " has auto-increment primary keys. This is likely a mistake as two concurrent nodes will assign unrelated rows the same primary key. Either use a primary key that represents the identity of your row or use a database friendly UUID such as UUIDv7"@,
        Rule::NoForeignKeys =>
            " has checked foreign key constraints. CRRs may have foreign keys but must not have checked foreign key constraints as they can be violated by row level security or replication."@,
        Rule::RequiredColumnsHaveDefaults =>
            " has a NOT NULL column without a DEFAULT VALUE. This is not allowed as it prevents forwards and backwards compatibility between schema versions. Make the column nullable or assign a default value to it."@,
    }
}

/// The diagnostic for a table `table` that breaks `rule`.
pub open spec fn diagnostic(rule: Rule, table: Seq<char>) -> Seq<char> {
    diagnostic_prefix(rule) + table + diagnostic_suffix(rule)
}

impl Rule {
    /// The read on which the rule is decided.
    pub open spec fn read(self) -> CatalogRead {
        match self {
            Rule::NoStrayUniqueIndex => CatalogRead::Indexes,
            Rule::PrimaryKeyRequired => CatalogRead::Columns,
            Rule::NoAutoincrement => CatalogRead::SchemaText,
            Rule::NoForeignKeys => CatalogRead::ForeignKeys,
            Rule::RequiredColumnsHaveDefaults => CatalogRead::ExtendedColumns,
        }
    }

    /// The diagnostic for a table `table` that breaks the rule.
    pub fn diagnostic(self, table: &str) -> (text: String)
        ensures
            text@ == diagnostic(self, table@),
    {
        let prefix = match self {
            Rule::NoAutoincrement => "",
            _ => "Table ",
        };
        let suffix = match self {
            Rule::NoStrayUniqueIndex =>
                " has unique indices besides the primary key. This is not allowed for CRRs",
            Rule::PrimaryKeyRequired => " has no primary key. CRRs must have a primary key",
            Rule::NoAutoincrement =>
                " has auto-increment primary keys. This is likely a mistake as two concurrent nodes will assign unrelated rows the same primary key. Either use a primary key that represents the identity of your row or use a database friendly UUID such as UUIDv7",
            Rule::NoForeignKeys =>
                " has checked foreign key constraints. CRRs may have foreign keys but must not have checked foreign key constraints as they can be violated by row level security or replication.",
            Rule::RequiredColumnsHaveDefaults =>
                " has a NOT NULL column without a DEFAULT VALUE. This is not allowed as it prevents forwards and backwards compatibility between schema versions. Make the column nullable or assign a default value to it.",
        };
        let mut text = String::from_str(prefix);
        text.append(table);
        text.append(suffix);
        text
    }
}

/// Some index enforces uniqueness and is not derived from the primary key.
pub open spec fn stray_unique_index(indexes: Seq<IndexModel>) -> bool {
    exists|i: int|
        0 <= i < indexes.len() && (#[trigger] indexes[i]).unique && indexes[i].origin != "pk"@
}

/// Some column belongs to the primary key.
pub open spec fn primary_key_present(cols: Seq<ColumnModel>) -> bool {
    exists|i: int| 0 <= i < cols.len() && (#[trigger] cols[i]).pk > 0
}

/// The byte `b` with an ASCII capital letter made small.
pub open spec fn fold_ascii(b: u8) -> u8 {
    if 0x41 <= b <= 0x5a {
        (b + 0x20) as u8
    } else {
        b
    }
}

/// `word` stands in `text` from position `at` on, the case of ASCII letters
/// set aside.
pub open spec fn occurs_at(text: Seq<u8>, word: Seq<u8>, at: int) -> bool {
    &&& 0 <= at
    &&& at + word.len() <= text.len()
    &&& forall|j: int|
        0 <= j < word.len() ==> fold_ascii(text[at + j]) == fold_ascii(#[trigger] word[j])
}

/// `word` stands somewhere in `text`, the case of ASCII letters set aside.
pub open spec fn occurs_in(text: Seq<u8>, word: Seq<u8>) -> bool {
    exists|at: int| occurs_at(text, word, at)
}

/// The UTF-8 encoding of `text` holds the word `autoincrement`, in any mix of
/// capital and small letters.
pub open spec fn mentions_autoincrement(text: Seq<char>) -> bool {
    occurs_in(encode_utf8(text), encode_utf8("autoincrement"@))
}

/// The characters of `word` stand in `text` from position `at` on, the case
/// of ASCII letters set aside.
pub open spec fn spelled_at(text: Seq<char>, word: Seq<char>, at: int) -> bool {
    &&& 0 <= at
    &&& at + word.len() <= text.len()
    &&& forall|j: int|
        0 <= j < word.len() ==> fold_ascii(text[at + j] as u8) == fold_ascii(
            #[trigger] word[j] as u8,
        )
}

/// In a creation statement of ASCII characters, autoincrement is mentioned
/// exactly if thirteen characters in a row spell the word, in any mix of
/// capital and small letters.
pub proof fn lemma_ascii_statement_mentions_autoincrement(text: Seq<char>)
    requires
        is_ascii_chars(text),
    ensures
        mentions_autoincrement(text) <==> exists|at: int|
            spelled_at(text, "autoincrement"@, at),
{
    let word = "autoincrement"@;
    reveal_strlit("autoincrement");
    assert(is_ascii_chars(word));
    is_ascii_chars_encode_utf8(text);
    is_ascii_chars_encode_utf8(word);
    let text_bytes = encode_utf8(text);
    let word_bytes = encode_utf8(word);
    assert forall|at: int| occurs_at(text_bytes, word_bytes, at) <==> spelled_at(
        text,
        word,
        at,
    ) by {
        if occurs_at(text_bytes, word_bytes, at) {
            assert forall|j: int| 0 <= j < word.len() implies fold_ascii(text[at + j] as u8)
                == fold_ascii(#[trigger] word[j] as u8) by {
                assert(word_bytes[j] == word[j] as u8);
                assert(text_bytes[at + j] == text[at + j] as u8);
            }
        }
        if spelled_at(text, word, at) {
            assert forall|j: int| 0 <= j < word_bytes.len() implies fold_ascii(
                text_bytes[at + j],
            ) == fold_ascii(#[trigger] word_bytes[j]) by {
                assert(word_bytes[j] == word[j] as u8);
                assert(text_bytes[at + j] == text[at + j] as u8);
            }
        }
    }
    if mentions_autoincrement(text) {
        let at = choose|at: int| occurs_at(text_bytes, word_bytes, at);
        assert(spelled_at(text, word, at));
    }
    if exists|at: int| spelled_at(text, word, at) {
        let at = choose|at: int| spelled_at(text, word, at);
        assert(occurs_at(text_bytes, word_bytes, at));
    }
}

/// Some column outside the primary key rejects NULL and declares no default.
pub open spec fn required_column_without_default(cols: Seq<ExtendedColumn>) -> bool {
    exists|i: int|
        0 <= i < cols.len() && (#[trigger] cols[i]).notnull && !cols[i].has_default && cols[i].pk
            == 0
}

/// Whether the answer to the read of `rule` shows that the table breaks it.
pub open spec fn finding(rule: Rule, facts: SchemaFacts) -> Reading<bool> {
    match rule {
        Rule::NoStrayUniqueIndex => match facts.indexes {
            Reading::Pending => Reading::Pending,
            Reading::Failed(code) => Reading::Failed(code),
            Reading::Answer(indexes) => Reading::Answer(stray_unique_index(indexes)),
        },
        Rule::PrimaryKeyRequired => match facts.columns {
            Reading::Pending => Reading::Pending,
            Reading::Failed(code) => Reading::Failed(code),
            Reading::Answer(cols) => Reading::Answer(!primary_key_present(cols)),
        },
        Rule::NoAutoincrement => match facts.schema_text {
            Reading::Pending => Reading::Pending,
            Reading::Failed(code) => Reading::Failed(code),
            Reading::Answer(None) => Reading::Answer(false),
            Reading::Answer(Some(text)) => Reading::Answer(mentions_autoincrement(text)),
        },
        Rule::NoForeignKeys => match facts.foreign_keys {
            Reading::Pending => Reading::Pending,
            Reading::Failed(code) => Reading::Failed(code),
            Reading::Answer(count) => Reading::Answer(count != 0),
        },
        Rule::RequiredColumnsHaveDefaults => match facts.extended_columns {
            Reading::Pending => Reading::Pending,
            Reading::Failed(code) => Reading::Failed(code),
            Reading::Answer(cols) => Reading::Answer(required_column_without_default(cols)),
        },
    }
}

/// What the trial of `rule` comes to: the read it still needs, the failure of
/// that read, the breach of the rule, or else `otherwise`.
pub open spec fn trial(
    rule: Rule,
    table: Seq<char>,
    facts: SchemaFacts,
    otherwise: EligibilityModel,
) -> EligibilityModel {
    match finding(rule, facts) {
        Reading::Pending => EligibilityModel::Read(rule.read()),
        Reading::Failed(code) => EligibilityModel::Failed(
            query_failure(rule.read(), table, code as int),
        ),
        Reading::Answer(broken) => if broken {
            EligibilityModel::Incompatible { rule, diagnostic: diagnostic(rule, table) }
        } else {
            otherwise
        },
    }
}

/// What the validation of `table` comes to on the answers `facts`: the five
/// rules tried in order, the first breach or failure deciding.
pub open spec fn eligibility(table: Seq<char>, facts: SchemaFacts) -> EligibilityModel {
    trial(
        Rule::NoStrayUniqueIndex,
        table,
        facts,
        trial(
            Rule::PrimaryKeyRequired,
            table,
            facts,
            trial(
                Rule::NoAutoincrement,
                table,
                facts,
                trial(
                    Rule::NoForeignKeys,
                    table,
                    facts,
                    trial(
                        Rule::RequiredColumnsHaveDefaults,
                        table,
                        facts,
                        EligibilityModel::Compatible,
                    ),
                ),
            ),
        ),
    )
}

/// Tells whether some index of `indexes` enforces uniqueness without being
/// derived from the primary key.
pub fn has_stray_unique_index(indexes: &Vec<IndexInfo>) -> (found: bool)
    ensures
        found == stray_unique_index(indexes.deep_view()),
{
    let pk = String::from_str("pk");
    let mut i: usize = 0;
    while i < indexes.len()
        invariant
            i <= indexes.len(),
            pk@ == "pk"@,
            forall|k: int|
                0 <= k < i ==> !((#[trigger] indexes.deep_view()[k]).unique
                    && indexes.deep_view()[k].origin != "pk"@),
        decreases indexes.len() - i,
    {
        if indexes[i].unique && indexes[i].origin != pk {
            assert(indexes.deep_view()[i as int].unique);
            return true;
        }
        i += 1;
    }
    false
}

/// Tells whether some column of `cols` belongs to the primary key.
pub fn has_primary_key(cols: &Vec<ColumnInfo>) -> (found: bool)
    ensures
        found == primary_key_present(cols.deep_view()),
{
    let mut i: usize = 0;
    while i < cols.len()
        invariant
            i <= cols.len(),
            forall|k: int| 0 <= k < i ==> (#[trigger] cols.deep_view()[k]).pk <= 0,
        decreases cols.len() - i,
    {
        if cols[i].pk > 0 {
            assert(cols.deep_view()[i as int].pk > 0);
            return true;
        }
        i += 1;
    }
    false
}

/// Tells whether some column of `cols` outside the primary key rejects NULL
/// and declares no default.
pub fn has_required_column_without_default(cols: &Vec<ExtendedColumn>) -> (found: bool)
    ensures
        found == required_column_without_default(cols.deep_view()),
{
    let mut i: usize = 0;
    while i < cols.len()
        invariant
            i <= cols.len(),
            forall|k: int|
                0 <= k < i ==> !((#[trigger] cols.deep_view()[k]).notnull
                    && !cols.deep_view()[k].has_default && cols.deep_view()[k].pk == 0),
        decreases cols.len() - i,
    {
        if cols[i].notnull && !cols[i].has_default && cols[i].pk == 0 {
            assert(cols.deep_view()[i as int].notnull);
            return true;
        }
        i += 1;
    }
    false
}

fn fold_ascii_byte(b: u8) -> (folded: u8)
    ensures
        folded == fold_ascii(b),
{
    if 0x41 <= b && b <= 0x5a {
        b + 0x20
    } else {
        b
    }
}

fn word_at(text: &[u8], word: &[u8], at: usize) -> (found: bool)
    requires
        at + word.len() <= text.len(),
    ensures
        found == occurs_at(text@, word@, at as int),
{
    let mut j: usize = 0;
    while j < word.len()
        invariant
            j <= word.len(),
            at + word.len() <= text.len(),
            forall|k: int|
                0 <= k < j ==> fold_ascii(text@[at + k]) == fold_ascii(#[trigger] word@[k]),
        decreases word.len() - j,
    {
        if fold_ascii_byte(text[at + j]) != fold_ascii_byte(word[j]) {
            return false;
        }
        j += 1;
    }
    true
}

/// Tells whether `word` stands somewhere in `text`, the case of ASCII
/// letters set aside.
pub fn contains_ignoring_ascii_case(text: &[u8], word: &[u8]) -> (found: bool)
    ensures
        found == occurs_in(text@, word@),
{
    if word.len() > text.len() {
        return false;
    }
    let last = text.len() - word.len();
    let mut at: usize = 0;
    while at <= last
        invariant
            last == text.len() - word.len(),
            at <= last + 1,
            forall|a: int| 0 <= a < at ==> !occurs_at(text@, word@, a),
        decreases last + 1 - at,
    {
        if word_at(text, word, at) {
            return true;
        }
        at += 1;
    }
    false
}

/// Tells whether the creation statement `text` of a table asks for an
/// automatically incremented key.
///
/// This is a search of the text and no reading of the statement: the word is
/// found in a comment or a name as well, and a key that increments without
/// the word is not found.
pub fn declares_autoincrement(text: &str) -> (found: bool)
    ensures
        found == mentions_autoincrement(text@),
{
    contains_ignoring_ascii_case(text.as_bytes(), "autoincrement".as_bytes())
}

/// Validates the table `table` as far as the answers in `reads` allow.
///
/// Returns the read that is needed next, or, once `reads` holds enough, the
/// verdict or the reason why there is none.
pub fn is_table_compatible(table: &str, reads: &SchemaReads) -> (step: Eligibility)
    ensures
        step@ == eligibility(table@, reads@),
{
    match &reads.indexes {
        Reading::Pending => {
            return Eligibility::Read(CatalogRead::Indexes);
        },
        Reading::Failed(code) => {
            return failed(CatalogRead::Indexes, table, *code);
        },
        Reading::Answer(indexes) => {
            if has_stray_unique_index(indexes) {
                return incompatible(Rule::NoStrayUniqueIndex, table);
            }
        },
    }
    match &reads.columns {
        Reading::Pending => {
            return Eligibility::Read(CatalogRead::Columns);
        },
        Reading::Failed(code) => {
            return failed(CatalogRead::Columns, table, *code);
        },
        Reading::Answer(cols) => {
            if !has_primary_key(cols) {
                return incompatible(Rule::PrimaryKeyRequired, table);
            }
        },
    }
    match &reads.schema_text {
        Reading::Pending => {
            return Eligibility::Read(CatalogRead::SchemaText);
        },
        Reading::Failed(code) => {
            return failed(CatalogRead::SchemaText, table, *code);
        },
        Reading::Answer(None) => {},
        Reading::Answer(Some(text)) => {
            if declares_autoincrement(text.as_str()) {
                return incompatible(Rule::NoAutoincrement, table);
            }
        },
    }
    match &reads.foreign_keys {
        Reading::Pending => {
            return Eligibility::Read(CatalogRead::ForeignKeys);
        },
        Reading::Failed(code) => {
            return failed(CatalogRead::ForeignKeys, table, *code);
        },
        Reading::Answer(count) => {
            if *count != 0 {
                return incompatible(Rule::NoForeignKeys, table);
            }
        },
    }
    match &reads.extended_columns {
        Reading::Pending => Eligibility::Read(CatalogRead::ExtendedColumns),
        Reading::Failed(code) => failed(CatalogRead::ExtendedColumns, table, *code),
        Reading::Answer(cols) => {
            if has_required_column_without_default(cols) {
                incompatible(Rule::RequiredColumnsHaveDefaults, table)
            } else {
                Eligibility::Compatible
            }
        },
    }
}

fn incompatible(rule: Rule, table: &str) -> (step: Eligibility)
    ensures
        step@ == (EligibilityModel::Incompatible { rule, diagnostic: diagnostic(rule, table@) }),
{
    Eligibility::Incompatible { rule, diagnostic: rule.diagnostic(table) }
}

fn failed(read: CatalogRead, table: &str, code: i32) -> (step: Eligibility)
    ensures
        step@ == EligibilityModel::Failed(query_failure(read, table@, code as int)),
{
    Eligibility::Failed(SchemaError::query_failure(read, table, code))
}

/// A table that keeps all five rules is compatible, and no diagnostic is given.
pub proof fn lemma_clean_table_is_compatible(table: Seq<char>, facts: SchemaFacts)
    requires
        finding(Rule::NoStrayUniqueIndex, facts) == Reading::Answer(false),
        finding(Rule::PrimaryKeyRequired, facts) == Reading::Answer(false),
        finding(Rule::NoAutoincrement, facts) == Reading::Answer(false),
        finding(Rule::NoForeignKeys, facts) == Reading::Answer(false),
        finding(Rule::RequiredColumnsHaveDefaults, facts) == Reading::Answer(false),
    ensures
        eligibility(table, facts) == EligibilityModel::Compatible,
        eligibility(table, facts).verdict() == Some((true, None::<Seq<char>>)),
{
}

/// A table is compatible only if every read was answered and no rule is broken.
pub proof fn lemma_compatible_keeps_every_rule(table: Seq<char>, facts: SchemaFacts, rule: Rule)
    requires
        eligibility(table, facts) is Compatible,
    ensures
        finding(rule, facts) == Reading::Answer(false),
{
}

/// A unique index that is not derived from the primary key makes the table
/// incompatible under the first rule, whatever the other reads hold and
/// whether or not they were made.
pub proof fn lemma_stray_unique_index_decides(
    table: Seq<char>,
    facts: SchemaFacts,
    indexes: Seq<IndexModel>,
)
    requires
        facts.indexes == Reading::Answer(indexes),
        stray_unique_index(indexes),
    ensures
        eligibility(table, facts) == (EligibilityModel::Incompatible {
            rule: Rule::NoStrayUniqueIndex,
            diagnostic: diagnostic(Rule::NoStrayUniqueIndex, table),
        }),
{
}

/// A table without a primary key, and without a stray unique index, is
/// incompatible under the second rule, and the diagnostic says that the
/// table has no primary key.
pub proof fn lemma_missing_primary_key_is_reported(
    table: Seq<char>,
    facts: SchemaFacts,
    cols: Seq<ColumnModel>,
)
    requires
        finding(Rule::NoStrayUniqueIndex, facts) == Reading::Answer(false),
        facts.columns == Reading::Answer(cols),
        forall|i: int| 0 <= i < cols.len() ==> (#[trigger] cols[i]).pk <= 0,
    ensures
        eligibility(table, facts) == (EligibilityModel::Incompatible {
            rule: Rule::PrimaryKeyRequired,
            diagnostic: "Table "@ + table + " has no primary key. CRRs must have a primary key"@,
        }),
{
}

/// A creation statement that mentions autoincrement makes a table that keeps
/// the first two rules incompatible under the third, whatever the reads of
/// the fourth and fifth rule hold.
pub proof fn lemma_autoincrement_decides(table: Seq<char>, facts: SchemaFacts, text: Seq<char>)
    requires
        finding(Rule::NoStrayUniqueIndex, facts) == Reading::Answer(false),
        finding(Rule::PrimaryKeyRequired, facts) == Reading::Answer(false),
        facts.schema_text == Reading::Answer(Some(text)),
        mentions_autoincrement(text),
    ensures
        eligibility(table, facts) == (EligibilityModel::Incompatible {
            rule: Rule::NoAutoincrement,
            diagnostic: diagnostic(Rule::NoAutoincrement, table),
        }),
{
}

/// A table that keeps the first four rules breaks the fifth exactly if some
/// column outside the key rejects NULL without a default.
pub proof fn lemma_required_column_needs_default(
    table: Seq<char>,
    facts: SchemaFacts,
    cols: Seq<ExtendedColumn>,
)
    requires
        finding(Rule::NoStrayUniqueIndex, facts) == Reading::Answer(false),
        finding(Rule::PrimaryKeyRequired, facts) == Reading::Answer(false),
        finding(Rule::NoAutoincrement, facts) == Reading::Answer(false),
        finding(Rule::NoForeignKeys, facts) == Reading::Answer(false),
        facts.extended_columns == Reading::Answer(cols),
    ensures
        eligibility(table, facts) == if required_column_without_default(cols) {
            EligibilityModel::Incompatible {
                rule: Rule::RequiredColumnsHaveDefaults,
                diagnostic: diagnostic(Rule::RequiredColumnsHaveDefaults, table),
            }
        } else {
            EligibilityModel::Compatible
        },
{
}

/// Where one column alone rejects NULL without a default outside the key,
/// giving that column a default leaves no such column.
pub proof fn lemma_default_mends_required_column(cols: Seq<ExtendedColumn>, at: int)
    requires
        0 <= at < cols.len(),
        forall|i: int|
            0 <= i < cols.len() && i != at ==> !((#[trigger] cols[i]).notnull
                && !cols[i].has_default && cols[i].pk == 0),
    ensures
        !required_column_without_default(
            cols.update(
                at,
                ExtendedColumn { notnull: cols[at].notnull, has_default: true, pk: cols[at].pk },
            ),
        ),
{
    let mended = cols.update(
        at,
        ExtendedColumn { notnull: cols[at].notnull, has_default: true, pk: cols[at].pk },
    );
    assert forall|i: int| 0 <= i < mended.len() implies !((#[trigger] mended[i]).notnull
        && !mended[i].has_default && mended[i].pk == 0) by {
        if i != at {
            assert(mended[i] == cols[i]);
        }
    }
}

/// The place of `rule` in the order in which the rules are tried.
pub open spec fn rule_index(rule: Rule) -> int {
    match rule {
        Rule::NoStrayUniqueIndex => 0,
        Rule::PrimaryKeyRequired => 1,
        Rule::NoAutoincrement => 2,
        Rule::NoForeignKeys => 3,
        Rule::RequiredColumnsHaveDefaults => 4,
    }
}

/// The step of a validation is decided by the reads up to the one that
/// decides it: answers that agree up to the first read that is pending or
/// failed, or that shows a breach, come to the same step.
pub proof fn lemma_later_reads_do_not_matter(
    table: Seq<char>,
    first: SchemaFacts,
    second: SchemaFacts,
    deciding: Rule,
)
    requires
        finding(deciding, first) != Reading::Answer(false),
        forall|rule: Rule|
            rule_index(rule) < rule_index(deciding) ==> #[trigger] finding(rule, first)
                == Reading::Answer(false),
        forall|rule: Rule|
            rule_index(rule) <= rule_index(deciding) ==> #[trigger] finding(rule, first)
                == finding(rule, second),
    ensures
        eligibility(table, first) == eligibility(table, second),
{
}

/// Only the read of a rule is asked for, and only while it has not been made
/// and every earlier rule is known to be kept.
pub proof fn lemma_asks_for_pending_reads(table: Seq<char>, facts: SchemaFacts, read: CatalogRead)
    requires
        eligibility(table, facts) == EligibilityModel::Read(read),
    ensures
        exists|rule: Rule|
            {
                &&& read == rule.read()
                &&& #[trigger] finding(rule, facts) is Pending
                &&& forall|earlier: Rule|
                    rule_index(earlier) < rule_index(rule) ==> #[trigger] finding(earlier, facts)
                        == Reading::Answer(false)
            },
{
}

/// A compatible table has a key: its shape holds at least one key column.
pub proof fn lemma_compatible_table_has_key_columns(
    table: Seq<char>,
    facts: SchemaFacts,
    cols: Seq<ColumnModel>,
    shape: TableModel,
)
    requires
        eligibility(table, facts) is Compatible,
        facts.columns == Reading::Answer(cols),
        is_shape_of(shape, table, cols),
    ensures
        shape.pks.len() > 0,
{
    assert(finding(Rule::PrimaryKeyRequired, facts) == Reading::Answer(false));
    let i = choose|i: int| 0 <= i < cols.len() && (#[trigger] cols[i]).pk > 0;
    cols.lemma_filter_contains(in_key(), i);
}

} // verus!
