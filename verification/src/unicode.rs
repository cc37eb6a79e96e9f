use vstd::prelude::*;
use vstd::hash_map::StringHashMap;
use unic_char_range::CharRange;
use unic_ucd_block::BlockIter;

verus! {

/// A named Unicode block: the code points from `low` to `high`, both included.
#[derive(Debug, PartialEq, Eq)]
pub struct UnicodeBlock {
    pub name: String,
    pub low: char,
    pub high: char,
}

/// The two ends of the block that the Unicode character database, in the version that
/// `unic_ucd_block` holds, lists under a name; `None` for a name that it does not list.
pub uninterp spec fn unicode_block_range(name: Seq<char>) -> Option<(char, char)>;

/// The scalar values among the code points from `low` to `high`, both included, in rising
/// order: the code points themselves, but for the surrogates, which are passed over.
pub open spec fn scalar_values(low: int, high: int) -> Seq<char>
    decreases high - low + 1,
{
    if low > high {
        Seq::empty()
    } else if 0xd800 <= low <= 0xdfff {
        scalar_values(low + 1, high)
    } else {
        seq![low as char] + scalar_values(low + 1, high)
    }
}

/// The scalar values from `low` to `high`, both included, in rising order.
pub open spec fn char_range(low: char, high: char) -> Seq<char> {
    scalar_values(low as int, high as int)
}

/// The blocks of the Unicode character database that `unic_ucd_block::BlockIter` walks, each
/// with its name and the two ends of its range.
///
/// Trusted: the iterator walks the whole of the crate's table, which is what
/// `unicode_block_range` names, and the crate documents its blocks as uniquely named.
#[verifier::external_body]
pub(crate) fn unicode_blocks() -> (table: Vec<UnicodeBlock>)
    ensures
        forall|i: int|
            0 <= i < table.len() ==> unicode_block_range((#[trigger] table[i]).name@) == Some(
                (table[i].low, table[i].high),
            ),
        forall|name: Seq<char>| #[trigger]
            unicode_block_range(name) is Some ==> exists|i: int|
                0 <= i < table.len() && (#[trigger] table[i]).name@ == name,
{
    BlockIter::new().map(
        |block| UnicodeBlock {
            name: block.name.to_string(),
            low: block.range.low,
            high: block.range.high,
        },
    ).collect()
}

/// The characters that `unic_char_range::CharRange::closed(low, high)` iterates over.
///
/// Trusted: the iterator starts at `low`, steps to the next scalar value each time, passing
/// over the surrogates, and stops after `high`.
#[verifier::external_body]
pub(crate) fn chars_between(low: char, high: char) -> (chars: Vec<char>)
    ensures
        chars@ == char_range(low, high),
{
    CharRange::closed(low, high).iter().collect()
}

/// Every scalar value between the two ends of a range is among the scalar values of the
/// range.
pub proof fn lemma_char_range_contains(low: char, high: char, c: char)
    requires
        low <= c <= high,
    ensures
        char_range(low, high).contains(c),
{
    lemma_scalar_values_contain(low as int, high as int, c);
}

/// Every scalar value from `low` to `high` is among the scalar values from `low` to `high`.
pub proof fn lemma_scalar_values_contain(low: int, high: int, c: char)
    requires
        low <= c as int <= high,
    ensures
        scalar_values(low, high).contains(c),
    decreases high - low + 1,
{
    let all = scalar_values(low, high);
    if 0xd800 <= low <= 0xdfff {
        lemma_scalar_values_contain(low + 1, high, c);
    } else if low == c as int {
        assert(all[0] == c);
    } else {
        lemma_scalar_values_contain(low + 1, high, c);
        let rest = scalar_values(low + 1, high);
        let i = choose|i: int| 0 <= i < rest.len() && rest[i] == c;
        assert(all[i + 1] == c);
    }
}

/// The blocks of the first `n` places of a list, each under its name with its two ends. Of
/// two blocks with one name the later stands.
pub open spec fn table_map(table: Seq<UnicodeBlock>, n: int) -> Map<Seq<char>, (char, char)>
    decreases n,
{
    if n <= 0 {
        Map::empty()
    } else {
        table_map(table, n - 1).insert(table[n - 1].name@, (table[n - 1].low, table[n - 1].high))
    }
}

/// A map holds the blocks of the Unicode character database, and no others.
pub open spec fn is_database(ranges: Map<Seq<char>, (char, char)>) -> bool {
    forall|name: Seq<char>|
        (#[trigger] ranges.contains_key(name) <==> unicode_block_range(name) is Some) && (
        ranges.contains_key(name) ==> unicode_block_range(name) == Some(ranges[name]))
}

/// Every name of the map is the name of a block of the list, with that block's two ends, and
/// every block of the list has its name in the map.
pub proof fn lemma_table_map(table: Seq<UnicodeBlock>, n: int, name: Seq<char>)
    requires
        0 <= n <= table.len(),
    ensures
        table_map(table, n).contains_key(name) <==> exists|i: int|
            0 <= i < n && (#[trigger] table[i]).name@ == name,
        table_map(table, n).contains_key(name) ==> exists|i: int|
            0 <= i < n && (#[trigger] table[i]).name@ == name && table_map(table, n)[name] == (
                table[i].low,
                table[i].high,
            ),
    decreases n,
{
    if n > 0 {
        lemma_table_map(table, n - 1, name);
        let before = table_map(table, n - 1);
        if table[n - 1].name@ == name {
            assert(table_map(table, n)[name] == (table[n - 1].low, table[n - 1].high));
        } else if before.contains_key(name) {
            let i = choose|i: int|
                0 <= i < n - 1 && (#[trigger] table[i]).name@ == name && before[name] == (
                    table[i].low,
                    table[i].high,
                );
            assert(table[i].name@ == name && table_map(table, n)[name] == (
                table[i].low,
                table[i].high,
            ));
        }
    }
}

/// Named blocks, found by name.
pub struct BlockTable {
    ranges: StringHashMap<(char, char)>,
}

impl View for BlockTable {
    type V = Map<Seq<char>, (char, char)>;

    closed spec fn view(&self) -> Map<Seq<char>, (char, char)> {
        self.ranges@
    }
}

impl BlockTable {
    /// The table of a list of blocks.
    pub fn from_blocks(table: &Vec<UnicodeBlock>) -> (t: BlockTable)
        ensures
            t@ == table_map(table@, table.len() as int),
    {
        let mut ranges: StringHashMap<(char, char)> = StringHashMap::new();
        let mut i: usize = 0;
        while i < table.len()
            invariant
                i <= table.len(),
                ranges@ == table_map(table@, i as int),
            decreases table.len() - i,
        {
            ranges.insert(table[i].name.clone(), (table[i].low, table[i].high));
            i += 1;
        }
        BlockTable { ranges }
    }

    /// The table of the blocks of the Unicode character database.
    pub fn new() -> (t: BlockTable)
        ensures
            is_database(t@),
    {
        let table = unicode_blocks();
        let t = BlockTable::from_blocks(&table);
        proof {
            assert forall|name: Seq<char>|
                (#[trigger] t@.contains_key(name) <==> unicode_block_range(name) is Some) && (
                t@.contains_key(name) ==> unicode_block_range(name) == Some(t@[name])) by {
                lemma_table_map(table@, table.len() as int, name);
            }
        }
        t
    }

    /// The two ends of the block of a name, if the table has one.
    pub fn range(&self, name: &str) -> (r: Option<(char, char)>)
        ensures
            r == (if self@.contains_key(name@) {
                Some(self@[name@])
            } else {
                None
            }),
    {
        match self.ranges.get(name) {
            Some(range) => Some(*range),
            None => None,
        }
    }
}

/// The scalar values from `low` to `high`, both included, in rising order.
pub fn block_chars(low: char, high: char) -> (chars: Vec<char>)
    ensures
        chars@ == char_range(low, high),
{
    chars_between(low, high)
}

} // verus!
