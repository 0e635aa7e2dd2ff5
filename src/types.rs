//! The values the engine takes and produces, and their mathematical models.
use vstd::prelude::*;
use crate::text::string_from_chars;

verus! {

/// What a difference record says happened.
#[derive(Clone, Copy, Debug, PartialEq, Eq, Structural)]
pub enum DiffType {
    Add,
    Remove,
    Modify,
    Equal,
}

/// A half-open index range `[start, end)` into the sequence that produced a
/// record.
#[derive(Clone, Copy, Debug, PartialEq, Eq, Structural)]
pub struct Position {
    pub start: usize,
    pub end: usize,
}

/// One difference record.
#[derive(Clone, Debug)]
pub struct DiffItem {
    pub id: String,
    pub diff_type: DiffType,
    pub content: String,
    pub original_content: Option<String>,
    pub line_number: Option<usize>,
    pub position: Position,
}

/// The model of a [`DiffItem`]: its texts as character sequences.
pub struct ItemModel {
    pub id: Seq<char>,
    pub kind: DiffType,
    pub content: Seq<char>,
    pub original: Option<Seq<char>>,
    pub line: Option<nat>,
    pub start: nat,
    pub end: nat,
}

impl View for DiffItem {
    type V = ItemModel;

    open spec fn view(&self) -> ItemModel {
        ItemModel {
            id: self.id@,
            kind: self.diff_type,
            content: self.content@,
            original: match self.original_content {
                Some(s) => Some(s@),
                None => None,
            },
            line: match self.line_number {
                Some(n) => Some(n as nat),
                None => None,
            },
            start: self.position.start as nat,
            end: self.position.end as nat,
        }
    }
}

/// The models of a sequence of records.
pub open spec fn items_view(v: Seq<DiffItem>) -> Seq<ItemModel> {
    v.map_values(|it: DiffItem| it@)
}

pub proof fn lemma_items_view_push(v: Seq<DiffItem>, x: DiffItem)
    ensures
        items_view(v.push(x)) == items_view(v).push(x@),
{
    assert(items_view(v.push(x)) =~= items_view(v).push(x@));
}

/// Normalisation and segmentation switches.
#[derive(Clone, Copy, Debug, PartialEq, Eq, Structural)]
pub struct DiffOptions {
    pub ignore_case: bool,
    pub ignore_whitespace: bool,
    pub ignore_punctuation: bool,
    pub split_by_paragraph: bool,
    pub split_by_sentence: bool,
    /// A hint for a host user interface; the engine does not read it.
    pub use_web_worker: bool,
}

impl Default for DiffOptions {
    fn default() -> (r: DiffOptions)
        ensures
            !r.ignore_case && !r.ignore_whitespace && !r.ignore_punctuation,
            !r.split_by_paragraph && !r.split_by_sentence && !r.use_web_worker,
    {
        DiffOptions {
            ignore_case: false,
            ignore_whitespace: false,
            ignore_punctuation: false,
            split_by_paragraph: false,
            split_by_sentence: false,
            use_web_worker: false,
        }
    }
}

/// A similarity percentage held exactly: `100 * unchanged / total`, or 100
/// when `total` is 0.
#[derive(Clone, Copy, Debug, PartialEq, Eq, Structural)]
pub struct Similarity {
    /// Bytes of the longer input not accounted for by changed records
    /// (never below 0).
    pub unchanged: usize,
    /// Byte length of the longer input.
    pub total: usize,
}

impl Similarity {
    /// Whether the similarity is 100%.
    pub fn is_full(&self) -> (r: bool)
        ensures
            r == (self.unchanged == self.total),
    {
        self.unchanged == self.total
    }
}

/// Aggregate counts over a record sequence.
#[derive(Clone, Copy, Debug, PartialEq, Eq, Structural)]
pub struct DiffStats {
    pub total_changes: usize,
    pub additions: usize,
    pub deletions: usize,
    pub modifications: usize,
    pub added_words: usize,
    pub deleted_words: usize,
    pub similarity: Similarity,
}

/// The records of one comparison and their statistics.
#[derive(Clone, Debug)]
pub struct DiffResult {
    pub items: Vec<DiffItem>,
    pub stats: DiffStats,
}

/// The result for one line window of a streamed comparison.
#[derive(Clone, Debug)]
pub struct DiffChunk {
    pub index: usize,
    pub total: usize,
    pub items: Vec<DiffItem>,
    pub partial_stats: DiffStats,
}

/// The decimal digit character for `d < 10`.
pub open spec fn digit_char(d: nat) -> char {
    ((48 + d) as u32) as char
}

/// The decimal notation of `n`.
pub open spec fn decimal(n: nat) -> Seq<char>
    decreases n,
{
    if n < 10 {
        seq![digit_char(n)]
    } else {
        decimal(n / 10).push(digit_char(n % 10))
    }
}

/// The id of the `k`-th record emitted by one computation.
pub open spec fn item_id(k: nat) -> Seq<char> {
    seq!['d', 'i', 'f', 'f', '-'] + decimal(k)
}

fn decimal_chars(n: u128) -> (r: Vec<char>)
    ensures
        r@ == decimal(n as nat),
    decreases n,
{
    let c = ((n % 10) as u8 + 48u8) as char;
    if n < 10 {
        let mut v: Vec<char> = Vec::new();
        v.push(c);
        v
    } else {
        let mut v = decimal_chars(n / 10);
        v.push(c);
        v
    }
}

/// The decimal notation of `n`.
pub fn decimal_text(n: u128) -> (r: String)
    ensures
        r@ == decimal(n as nat),
{
    let digits = decimal_chars(n);
    string_from_chars(digits.as_slice())
}

/// The id `diff-<k>`.
pub fn make_id(k: usize) -> (r: String)
    ensures
        r@ == item_id(k as nat),
{
    let digits = decimal_text(k as u128);
    let mut id = String::from_str("diff-");
    proof {
        reveal_strlit("diff-");
    }
    id.append(digits.as_str());
    proof {
        assert(id@ =~= item_id(k as nat));
    }
    id
}

/// A one-character string.
pub fn char_string(c: char) -> (r: String)
    ensures
        r@ == seq![c],
{
    let mut v: Vec<char> = Vec::new();
    v.push(c);
    proof {
        assert(v@ =~= seq![c]);
    }
    string_from_chars(v.as_slice())
}

} // verus!
