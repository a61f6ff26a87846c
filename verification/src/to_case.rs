//! Identifier casing: `CamelCase` names to `snake_case` and `UPPER_SNAKE_CASE`.

use vstd::prelude::*;
use crate::unicode::{is_ascii, is_lower, is_upper, lowered, raised};
use crate::unicode::{lowercase_of, same_text, uppercase_of};

verus! {

/// What a method does to the member it is named after.
#[derive(Clone, Copy, Debug, PartialEq, Eq, Structural)]
pub enum MethodKind {
    Normal,
    Setter,
    Remove,
}

/// The letter case of a converted name.
#[derive(Clone, Copy, Debug, PartialEq, Eq, Structural)]
pub enum Case {
    Lower,
    Upper,
}

/// The one name that is converted by hand.
pub open spec fn manual_fixup() -> Seq<char> {
    seq!['W', 'i', 'n', 'R', 'T']
}

/// What the hand-converted name becomes.
pub open spec fn manual_fixup_result(case: Case) -> Seq<char> {
    match case {
        Case::Lower => seq!['w', 'i', 'n', 'r', 't'],
        Case::Upper => seq!['W', 'I', 'N', 'R', 'T'],
    }
}

/// A character brought to the wanted case.
pub open spec fn cased(c: char, case: Case) -> Seq<char> {
    match case {
        Case::Lower => lowered(c),
        Case::Upper => raised(c),
    }
}

/// What becomes of a character inside the name that is not uppercase: it is
/// left alone in a lowercase name and raised in an uppercase one.
pub open spec fn kept(c: char, case: Case) -> Seq<char> {
    match case {
        Case::Lower => seq![c],
        Case::Upper => raised(c),
    }
}

/// Whether a word boundary lies before `current`: it is uppercase, and either
/// follows a lowercase character, or is followed by one while two or more
/// characters have passed since the last boundary.
pub open spec fn is_boundary(previous: char, current: char, next: char, passed: nat) -> bool {
    is_upper(current) && (is_lower(previous) || (is_lower(next) && passed > 1))
}

/// The number of characters passed since the last word boundary when the
/// character at `i` is looked at, for `1 <= i`.
pub open spec fn run_length(s: Seq<char>, i: int) -> nat
    decreases i,
{
    if i <= 1 {
        1
    } else if is_boundary(s[i - 2], s[i - 1], s[i], run_length(s, i - 1)) {
        1
    } else {
        run_length(s, i - 1) + 1
    }
}

/// Whether a new word starts at `i`, for a character that is neither the
/// first nor the last of `s`.
pub open spec fn starts_word(s: Seq<char>, i: int) -> bool {
    &&& 1 <= i < s.len() - 1
    &&& is_boundary(s[i - 1], s[i], s[i + 1], run_length(s, i))
}

/// What the character at `i` contributes to the converted name.
pub open spec fn piece(s: Seq<char>, i: int, case: Case) -> Seq<char> {
    if i == 0 || i == s.len() - 1 {
        cased(s[i], case)
    } else if !is_upper(s[i]) {
        kept(s[i], case)
    } else if starts_word(s, i) && s[i - 1] != '_' {
        seq!['_'] + cased(s[i], case)
    } else {
        cased(s[i], case)
    }
}

/// The contributions of the first `k` characters of `s`, in order.
pub open spec fn pieces(s: Seq<char>, k: int, case: Case) -> Seq<char>
    decreases k,
{
    if k <= 0 {
        Seq::empty()
    } else {
        pieces(s, k - 1, case) + piece(s, k - 1, case)
    }
}

/// The name `s` in snake case, with letters in the wanted case.
pub open spec fn converted(s: Seq<char>, case: Case) -> Seq<char> {
    if s == manual_fixup() {
        manual_fixup_result(case)
    } else {
        pieces(s, s.len() as int, case)
    }
}

/// The prefix that a method of the given kind gets.
pub open spec fn preamble(kind: MethodKind) -> Seq<char> {
    match kind {
        MethodKind::Normal => Seq::empty(),
        MethodKind::Setter => seq!['s', 'e', 't', '_'],
        MethodKind::Remove => seq!['r', 'e', 'm', 'o', 'v', 'e', '_'],
    }
}

/// Whether `c` is already what the wanted case makes of it: it is not of the
/// other case, and converting it gives `c` itself.
pub open spec fn is_settled(c: char, case: Case) -> bool {
    match case {
        Case::Lower => !is_upper(c) && lowered(c) == seq![c],
        Case::Upper => !is_lower(c) && raised(c) == seq![c],
    }
}

/// Whether every character of `s` is settled in the wanted case.
pub open spec fn all_settled(s: Seq<char>, case: Case) -> bool {
    forall|i: int| 0 <= i < s.len() ==> is_settled(#[trigger] s[i], case)
}

/// Whether every character of `s` is an ASCII character.
pub open spec fn all_ascii(s: Seq<char>) -> bool {
    forall|i: int| 0 <= i < s.len() ==> is_ascii(#[trigger] s[i])
}

/// The contributions of the characters of a settled name are the characters
/// themselves.
proof fn lemma_settled_pieces(s: Seq<char>, k: int, case: Case)
    requires
        all_settled(s, case),
        0 <= k <= s.len(),
    ensures
        pieces(s, k, case) == s.take(k),
    decreases k,
{
    if k > 0 {
        lemma_settled_pieces(s, k - 1, case);
        assert(is_settled(s[k - 1], case));
        if 1 <= k - 1 < s.len() - 1 {
            assert(is_settled(s[k - 2], case));
            assert(is_settled(s[k], case));
        }
        assert(piece(s, k - 1, case) =~= seq![s[k - 1]]);
        assert(s.take(k) =~= s.take(k - 1) + seq![s[k - 1]]);
    } else {
        assert(s.take(0) =~= Seq::<char>::empty());
    }
}

/// A name that is already in the wanted form is left as it is: converting a
/// name to lowercase changes nothing where no character is uppercase and each
/// is its own lowercase (small letters, digits and underscores among them),
/// and likewise for uppercase.
pub proof fn lemma_settled_name_is_unchanged(s: Seq<char>, case: Case)
    requires
        s.len() > 0,
        all_settled(s, case),
    ensures
        converted(s, case) == s,
{
    if s == manual_fixup() {
        assert(is_settled(s[0], case));
        assert(is_settled(s[1], case));
    }
    lemma_settled_pieces(s, s.len() as int, case);
    assert(s.take(s.len() as int) =~= s);
}

/// Whether `c` is a small ASCII letter, a digit or an underscore.
pub open spec fn is_snake_character(c: char) -> bool {
    ('a' <= c && c <= 'z') || ('0' <= c && c <= '9') || c == '_'
}

/// A name made of small ASCII letters, digits and underscores is its own
/// snake case.
pub proof fn lemma_snake_case_is_unchanged(s: Seq<char>)
    requires
        s.len() > 0,
        forall|i: int| 0 <= i < s.len() ==> is_snake_character(#[trigger] s[i]),
    ensures
        converted(s, Case::Lower) == s,
{
    assert forall|i: int| 0 <= i < s.len() implies is_settled(#[trigger] s[i], Case::Lower) by {
        assert(is_snake_character(s[i]));
    }
    lemma_settled_name_is_unchanged(s, Case::Lower);
}

/// Every character that an ASCII name contributes is settled.
proof fn lemma_ascii_pieces_settled(s: Seq<char>, k: int, case: Case)
    requires
        all_ascii(s),
        0 <= k <= s.len(),
    ensures
        all_settled(pieces(s, k, case), case),
        k > 0 ==> pieces(s, k, case).len() > 0,
    decreases k,
{
    if k > 0 {
        lemma_ascii_pieces_settled(s, k - 1, case);
        let before = pieces(s, k - 1, case);
        let here = piece(s, k - 1, case);
        assert(is_ascii(s[k - 1]));
        assert(here.len() > 0);
        assert(all_settled(here, case));
        assert forall|i: int| 0 <= i < (before + here).len() implies is_settled(
            #[trigger] (before + here)[i],
            case,
        ) by {
            if i < before.len() {
                assert((before + here)[i] == before[i]);
            } else {
                assert((before + here)[i] == here[i - before.len()]);
            }
        }
    }
}

/// Converting an ASCII name gives a name in the wanted form, so converting
/// the result once more changes nothing.
pub proof fn lemma_conversion_is_idempotent(s: Seq<char>, case: Case)
    requires
        s.len() > 0,
        all_ascii(s),
    ensures
        all_settled(converted(s, case), case),
        converted(converted(s, case), case) == converted(s, case),
{
    if s != manual_fixup() {
        lemma_ascii_pieces_settled(s, s.len() as int, case);
    }
    lemma_settled_name_is_unchanged(converted(s, case), case);
}

/// The characters of `s`, in order.
fn chars_of(s: &str) -> (chars: Vec<char>)
    ensures
        chars@ == s@,
{
    let mut chars: Vec<char> = Vec::new();
    for c in it: s.chars()
        invariant
            it.seq() == s@,
            chars@ == it.seq().take(it.index()),
    {
        chars.push(c);
    }
    chars
}

/// Adds `c`, brought to the wanted case, to the end of `buffer`.
fn push_cased(c: char, buffer: &mut String, case: Case)
    ensures
        final(buffer)@ == old(buffer)@ + cased(c, case),
{
    let mapped = match case {
        Case::Lower => lowercase_of(c),
        Case::Upper => uppercase_of(c),
    };
    buffer.append(mapped.as_str());
}

/// Adds a character that is not uppercase to the end of `buffer`.
fn push_kept(c: char, buffer: &mut String, case: Case)
    ensures
        final(buffer)@ == old(buffer)@ + kept(c, case),
{
    match case {
        Case::Lower => {
            buffer.push(c);
        },
        Case::Upper => {
            let mapped = uppercase_of(c);
            buffer.append(mapped.as_str());
        },
    }
}

/// Adds the name `camel`, converted to snake case in the wanted letter case,
/// to the end of `result`.
pub fn append(result: String, camel: &str, case: Case) -> (out: String)
    requires
        camel@.len() > 0,
    ensures
        out@ == result@ + converted(camel@, case),
{
    let mut result = result;
    let ghost start = result@;
    if same_text(camel, "WinRT") {
        proof {
            reveal_strlit("WinRT");
            assert(camel@ =~= manual_fixup());
        }
        push_cased('w', &mut result, case);
        push_cased('i', &mut result, case);
        push_cased('n', &mut result, case);
        push_cased('r', &mut result, case);
        push_cased('t', &mut result, case);
        assert(result@ =~= start + manual_fixup_result(case));
        return result;
    }
    proof {
        reveal_strlit("WinRT");
        assert("WinRT"@ =~= manual_fixup());
    }
    let chars = chars_of(camel);
    let n = chars.len();
    push_cased(chars[0], &mut result, case);
    assert(result@ =~= start + pieces(chars@, 1, case)) by {
        assert(pieces(chars@, 0, case) =~= Seq::<char>::empty());
    }
    if n == 1 {
        return result;
    }
    let mut since: usize = 1;
    let mut i: usize = 1;
    while i < n - 1
        invariant
            n == chars@.len(),
            1 <= i <= n - 1,
            since == run_length(chars@, i as int),
            since <= i,
            result@ == start + pieces(chars@, i as int, case),
        decreases n - i,
    {
        let previous = chars[i - 1];
        let current = chars[i];
        let next = chars[i + 1];
        if !current.is_uppercase() {
            since += 1;
            push_kept(current, &mut result, case);
        } else {
            if previous.is_lowercase() || (next.is_lowercase() && since > 1) {
                since = 0;
                if previous != '_' {
                    result.push('_');
                }
            }
            since += 1;
            push_cased(current, &mut result, case);
        }
        assert(result@ =~= start + pieces(chars@, i + 1, case));
        i += 1;
    }
    push_cased(chars[n - 1], &mut result, case);
    assert(result@ =~= start + pieces(chars@, n as int, case));
    result
}

/// Change a CamelCase method name to snake case, with the prefix that goes
/// with the kind of method.
pub fn method_to_snake(camel: &str, kind: MethodKind) -> (snake: String)
    requires
        camel@.len() > 0,
    ensures
        snake@ == preamble(kind) + converted(camel@, Case::Lower),
{
    let mut snake = String::new();
    match kind {
        MethodKind::Setter => {
            proof {
                reveal_strlit("set_");
            }
            snake.append("set_");
        },
        MethodKind::Remove => {
            proof {
                reveal_strlit("remove_");
            }
            snake.append("remove_");
        },
        MethodKind::Normal => {},
    }
    assert(snake@ =~= preamble(kind));
    append(snake, camel, Case::Lower)
}

/// Change a name to snake case.
pub fn to_snake(name: &str) -> (snake: String)
    requires
        name@.len() > 0,
    ensures
        snake@ == converted(name@, Case::Lower),
{
    let snake = String::new();
    append(snake, name, Case::Lower)
}

/// Change a name to upper snake case.
pub fn to_upper(name: &str) -> (upper: String)
    requires
        name@.len() > 0,
    ensures
        upper@ == converted(name@, Case::Upper),
{
    let upper = String::new();
    append(upper, name, Case::Upper)
}

} // verus!
