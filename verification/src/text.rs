//! Text that crosses the boundary: decimal field elements and artifact paths.

use vstd::prelude::*;

verus! {

/// The character that parts the components of an artifact path.
pub const SEPARATOR: char = '/';

pub open spec fn is_digit(c: char) -> bool {
    '0' <= c && c <= '9'
}

/// A field element is written in base 10, with at least one digit and nothing else:
/// no sign, no blank, no separator. Its length is not bounded.
pub open spec fn is_decimal(text: Seq<char>) -> bool {
    text.len() > 0 && forall|i: int| 0 <= i < text.len() ==> is_digit(#[trigger] text[i])
}

/// The texts that a list of strings holds, in order.
pub open spec fn texts(list: Seq<String>) -> Seq<Seq<char>> {
    Seq::new(list.len(), |i: int| list[i]@)
}

pub open spec fn all_decimal(list: Seq<Seq<char>>) -> bool {
    forall|i: int| 0 <= i < list.len() ==> is_decimal(#[trigger] list[i])
}

/// Tells whether `text` is a decimal field element.
pub fn is_decimal_text(text: &str) -> (ok: bool)
    ensures
        ok == is_decimal(text@),
{
    let n = text.unicode_len();
    if n == 0 {
        return false;
    }
    let mut i: usize = 0;
    while i < n
        invariant
            n == text@.len(),
            i <= n,
            forall|k: int| 0 <= k < i ==> is_digit(#[trigger] text@[k]),
        decreases n - i,
    {
        let c = text.get_char(i);
        if !('0' <= c && c <= '9') {
            return false;
        }
        i = i + 1;
    }
    true
}

/// Tells whether every string of `list` is a decimal field element.
pub fn are_decimal_texts(list: &Vec<String>) -> (ok: bool)
    ensures
        ok == all_decimal(texts(list@)),
{
    let mut i: usize = 0;
    while i < list.len()
        invariant
            i <= list.len(),
            forall|k: int| 0 <= k < i ==> is_decimal(#[trigger] texts(list@)[k]),
        decreases list.len() - i,
    {
        if !is_decimal_text(list[i].as_str()) {
            assert(!is_decimal(texts(list@)[i as int]));
            return false;
        }
        i = i + 1;
    }
    true
}

/// The place of the last separator in `path`, or -1 where it holds none.
pub open spec fn last_separator(path: Seq<char>) -> int
    decreases path.len(),
{
    if path.len() == 0 {
        -1
    } else if path.last() == SEPARATOR {
        path.len() - 1
    } else {
        last_separator(path.drop_last())
    }
}

/// The base name of a path: what follows its last separator, or the whole path
/// where it holds none. A path that ends in a separator has the empty base name.
pub open spec fn base_name(path: Seq<char>) -> Seq<char> {
    path.subrange(last_separator(path) + 1, path.len() as int)
}

/// Where `last_separator` points: at a separator with none behind it.
pub proof fn lemma_last_separator(path: Seq<char>)
    ensures
        -1 <= last_separator(path) < path.len(),
        last_separator(path) >= 0 ==> path[last_separator(path)] == SEPARATOR,
        forall|i: int| last_separator(path) < i < path.len() ==> path[i] != SEPARATOR,
    decreases path.len(),
{
    if path.len() > 0 && path.last() != SEPARATOR {
        lemma_last_separator(path.drop_last());
        assert forall|i: int| last_separator(path) < i < path.len() implies path[i] != SEPARATOR by {
            if i < path.len() - 1 {
                assert(path.drop_last()[i] == path[i]);
            }
        }
    }
}

/// A separator at `at` with none behind it is the last one.
pub proof fn lemma_last_separator_is(path: Seq<char>, at: int)
    requires
        -1 <= at < path.len(),
        at >= 0 ==> path[at] == SEPARATOR,
        forall|i: int| at < i < path.len() ==> path[i] != SEPARATOR,
    ensures
        last_separator(path) == at,
{
    lemma_last_separator(path);
}

/// The base name is the longest tail of the path that holds no separator.
pub proof fn law_base_name_is_longest_tail(path: Seq<char>)
    ensures
        base_name(path).len() <= path.len(),
        base_name(path) == path.skip(path.len() - base_name(path).len()),
        !base_name(path).contains(SEPARATOR),
        base_name(path).len() < path.len() ==> path[path.len() - base_name(path).len() - 1]
            == SEPARATOR,
{
    lemma_last_separator(path);
    let from = last_separator(path) + 1;
    assert(base_name(path) =~= path.skip(from));
    assert forall|i: int| 0 <= i < base_name(path).len() implies base_name(path)[i]
        != SEPARATOR by {
        assert(base_name(path)[i] == path[from + i]);
    }
}

/// The base name of `path`, from which the circuit handle is taken.
pub fn base_name_of(path: &str) -> (name: String)
    ensures
        name@ == base_name(path@),
{
    let n = path.unicode_len();
    let mut from: usize = n;
    while from > 0 && path.get_char(from - 1) != SEPARATOR
        invariant
            n == path@.len(),
            from <= n,
            forall|i: int| from <= i < n ==> path@[i] != SEPARATOR,
        decreases from,
    {
        from = from - 1;
    }
    proof {
        lemma_last_separator_is(path@, from - 1);
    }
    path.substring_char(from, n).to_string()
}

} // verus!
