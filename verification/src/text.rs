//! Small operations on texts that the rest of the crate shares.

use vstd::prelude::*;
use vstd::string::StringExecFns;
use vstd::utf8::encode_utf8;

verus! {

/// The texts of a list as the contracts see them.
pub open spec fn names_view(names: Seq<String>) -> Seq<Seq<char>> {
    names.map_values(|name: String| name@)
}

/// Whether two texts hold the same characters.
pub fn same_text(left: &str, right: &str) -> (same: bool)
    ensures
        same == (left@ == right@),
{
    let a = left.as_bytes();
    let b = right.as_bytes();
    proof {
        vstd::utf8::encode_utf8_decode_utf8(left@);
        vstd::utf8::encode_utf8_decode_utf8(right@);
    }
    if a.len() != b.len() {
        return false;
    }
    let mut i: usize = 0;
    while i < a.len()
        invariant
            i <= a@.len(),
            a@.len() == b@.len(),
            a@ == encode_utf8(left@),
            b@ == encode_utf8(right@),
            forall|k: int| 0 <= k < i ==> a@[k] == b@[k],
        decreases a@.len() - i,
    {
        if a[i] != b[i] {
            return false;
        }
        i += 1;
    }
    assert(a@ =~= b@);
    true
}

/// The position of the first `mark` among `items`, or the number of items
/// where there is none.
pub open spec fn first_at<A>(items: Seq<A>, mark: A) -> int
    decreases items.len(),
{
    if items.len() == 0 || items[0] == mark {
        0
    } else {
        1 + first_at(items.skip(1), mark)
    }
}

/// The pieces of `items` between the occurrences of `separator`: one more
/// piece than there are separators, empty pieces included.
pub open spec fn fields<A>(items: Seq<A>, separator: A) -> Seq<Seq<A>>
    decreases items.len(),
{
    let at = first_at(items, separator);
    if 0 <= at < items.len() {
        seq![items.take(at)] + fields(items.skip(at + 1), separator)
    } else {
        seq![items]
    }
}

/// The bytes of each text of a list.
pub open spec fn bytes_view(texts: Seq<String>) -> Seq<Seq<u8>> {
    texts.map_values(|text: String| encode_utf8(text@))
}

/// What the first position of a mark means: the mark stands there, if
/// anywhere, and nowhere before.
pub proof fn lemma_first_at(items: Seq<u8>, mark: u8)
    ensures
        0 <= first_at(items, mark) <= items.len(),
        first_at(items, mark) < items.len() ==> items[first_at(items, mark)] == mark,
        forall|k: int| 0 <= k < first_at(items, mark) ==> items[k] != mark,
    decreases items.len(),
{
    if items.len() != 0 && items[0] != mark {
        let rest = items.skip(1);
        lemma_first_at(rest, mark);
        assert forall|k: int| 0 <= k < first_at(items, mark) implies items[k] != mark by {
            if k > 0 {
                assert(rest[k - 1] == items[k]);
            }
        }
    }
}

/// The position of the first `mark` among the bytes, or their number where
/// there is none.
pub fn find_byte(bytes: &[u8], mark: u8) -> (at: usize)
    ensures
        at == first_at(bytes@, mark),
{
    let mut i: usize = 0;
    assert(bytes@.skip(0) =~= bytes@);
    while i < bytes.len()
        invariant
            i <= bytes@.len(),
            first_at(bytes@, mark) == i + first_at(bytes@.skip(i as int), mark),
        decreases bytes@.len() - i,
    {
        assert(bytes@.skip(i as int)[0] == bytes@[i as int]);
        if bytes[i] == mark {
            return i;
        }
        assert(bytes@.skip(i as int).skip(1) =~= bytes@.skip(i + 1));
        i += 1;
    }
    assert(bytes@.skip(i as int).len() == 0);
    i
}

/// Splits a text at every occurrence of a separator from the ASCII range:
/// the pieces between the separators, in order, as owned texts.
pub(crate) fn split_text(text: &str, separator: u8) -> (parts: Vec<String>)
    requires
        separator < 0x80,
    ensures
        bytes_view(parts@) == fields(encode_utf8(text@), separator),
{
    let mut parts: Vec<String> = Vec::new();
    let mut rest: &str = text;
    assert(bytes_view(parts@) + fields(encode_utf8(rest@), separator) =~= fields(
        encode_utf8(text@),
        separator,
    ));
    loop
        invariant_except_break
            separator < 0x80,
            fields(encode_utf8(text@), separator) == bytes_view(parts@) + fields(
                encode_utf8(rest@),
                separator,
            ),
        ensures
            bytes_view(parts@) == fields(encode_utf8(text@), separator),
        decreases encode_utf8(rest@).len(),
    {
        let bytes = rest.as_bytes();
        let at = find_byte(bytes, separator);
        let ghost before = bytes_view(parts@);
        proof {
            lemma_first_at(bytes@, separator);
            vstd::utf8::encode_utf8_valid_utf8(rest@);
        }
        if at == bytes.len() {
            parts.push(rest.to_owned());
            assert(bytes_view(parts@) =~= before + seq![bytes@]);
            break;
        }
        proof {
            vstd::utf8::is_char_boundary_iff_not_is_continuation_byte(bytes@, at as int);
        }
        let (head, tail) = rest.split_at(at);
        proof {
            vstd::utf8::encode_utf8_valid_utf8(tail@);
            let tail_bytes = encode_utf8(tail@);
            assert(tail_bytes[0] == separator);
            assert(vstd::utf8::is_char_boundary(tail_bytes, 1)) by {
                reveal_with_fuel(vstd::utf8::is_char_boundary, 2);
                reveal_with_fuel(vstd::utf8::valid_utf8, 2);
            }
        }
        let (_, after) = tail.split_at(1);
        parts.push(head.to_owned());
        proof {
            assert(encode_utf8(head@) == bytes@.take(at as int));
            assert(encode_utf8(after@) =~= bytes@.skip(at + 1));
            assert(bytes_view(parts@) =~= before + seq![bytes@.take(at as int)]);
            assert(before + (seq![bytes@.take(at as int)] + fields(
                bytes@.skip(at + 1),
                separator,
            )) =~= (before + seq![bytes@.take(at as int)]) + fields(
                bytes@.skip(at + 1),
                separator,
            ));
        }
        rest = after;
    }
    parts
}

/// Whether `text` starts with `prefix`, byte for byte.
pub fn starts_with_bytes(text: &[u8], prefix: &[u8]) -> (starts: bool)
    ensures
        starts == prefix@.is_prefix_of(text@),
{
    if prefix.len() > text.len() {
        return false;
    }
    let mut i: usize = 0;
    while i < prefix.len()
        invariant
            i <= prefix@.len() <= text@.len(),
            forall|k: int| 0 <= k < i ==> prefix@[k] == text@[k],
        decreases prefix@.len() - i,
    {
        if prefix[i] != text[i] {
            assert(text@.subrange(0, prefix@.len() as int)[i as int] == text@[i as int]);
            return false;
        }
        i += 1;
    }
    assert(prefix@ =~= text@.subrange(0, prefix@.len() as int));
    true
}

/// Whether `text` starts with `prefix`.
pub fn starts_with(text: &str, prefix: &str) -> (starts: bool)
    ensures
        starts == encode_utf8(prefix@).is_prefix_of(encode_utf8(text@)),
{
    starts_with_bytes(text.as_bytes(), prefix.as_bytes())
}

/// The decimal digit for a value below ten.
pub open spec fn digit_char(value: nat) -> char
    recommends
        value < 10,
{
    if value == 0 {
        '0'
    } else if value == 1 {
        '1'
    } else if value == 2 {
        '2'
    } else if value == 3 {
        '3'
    } else if value == 4 {
        '4'
    } else if value == 5 {
        '5'
    } else if value == 6 {
        '6'
    } else if value == 7 {
        '7'
    } else if value == 8 {
        '8'
    } else {
        '9'
    }
}

/// The decimal numeral of a number, without leading zeros.
pub open spec fn decimal(value: nat) -> Seq<char>
    decreases value,
{
    if value < 10 {
        seq![digit_char(value)]
    } else {
        decimal(value / 10).push(digit_char(value % 10))
    }
}

/// The text of one decimal digit.
fn digit_text(value: u16) -> (text: &'static str)
    requires
        value < 10,
    ensures
        text@ == seq![digit_char(value as nat)],
{
    proof {
        reveal_strlit("0");
        reveal_strlit("1");
        reveal_strlit("2");
        reveal_strlit("3");
        reveal_strlit("4");
        reveal_strlit("5");
        reveal_strlit("6");
        reveal_strlit("7");
        reveal_strlit("8");
        reveal_strlit("9");
    }
    let text = if value == 0 {
        "0"
    } else if value == 1 {
        "1"
    } else if value == 2 {
        "2"
    } else if value == 3 {
        "3"
    } else if value == 4 {
        "4"
    } else if value == 5 {
        "5"
    } else if value == 6 {
        "6"
    } else if value == 7 {
        "7"
    } else if value == 8 {
        "8"
    } else {
        "9"
    };
    assert(text@ =~= seq![digit_char(value as nat)]);
    text
}

/// Writes a number as a decimal numeral.
pub fn decimal_text(value: u16) -> (text: String)
    ensures
        text@ == decimal(value as nat),
    decreases value,
{
    if value < 10 {
        digit_text(value).to_owned()
    } else {
        let mut text = decimal_text(value / 10);
        text.append(digit_text(value % 10));
        assert(text@ =~= decimal(value as nat));
        text
    }
}

} // verus!
