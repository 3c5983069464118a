//! Text primitives shared by the validators and the prompt builders.

use vstd::prelude::*;
use vstd::string::*;

verus! {

/// Whether `c` has the Unicode `White_Space` property, as
/// `char::is_whitespace` decides it.
pub uninterp spec fn white_space(c: char) -> bool;

/// The lowercase form of `s` that `str::to_lowercase` produces.
pub uninterp spec fn lowercase(s: Seq<char>) -> Seq<char>;

/// `char::is_whitespace` is a function of the character alone; its table is
/// not spelled out here, only named.
pub assume_specification[ char::is_whitespace ](c: char) -> (b: bool)
    ensures
        b == white_space(c),
;

/// `str::to_lowercase` returns a new string that depends on the characters
/// of `s` alone; the Unicode mapping is named, not spelled out.
pub assume_specification[ str::to_lowercase ](s: &str) -> (lowered: String)
    ensures
        lowered@ == lowercase(s@),
;

/// Equality of string slices compares their characters.
pub assume_specification[ <str as PartialEq>::eq ](a: &str, b: &str) -> (same: bool)
    ensures
        same == (a@ == b@),
;

/// `s` without its leading white space.
pub open spec fn trim_start(s: Seq<char>) -> Seq<char>
    decreases s.len(),
{
    if s.len() > 0 && white_space(s.first()) {
        trim_start(s.drop_first())
    } else {
        s
    }
}

/// `s` without its trailing white space.
pub open spec fn trim_end(s: Seq<char>) -> Seq<char>
    decreases s.len(),
{
    if s.len() > 0 && white_space(s.last()) {
        trim_end(s.drop_last())
    } else {
        s
    }
}

/// `s` without leading and trailing white space.
pub open spec fn trimmed(s: Seq<char>) -> Seq<char> {
    trim_end(trim_start(s))
}

/// Whether every character of `s` is white space.
pub open spec fn blank(s: Seq<char>) -> bool {
    forall|i: int| 0 <= i < s.len() ==> white_space(#[trigger] s[i])
}

/// Whether `pattern` stands in `s` at index `at`.
pub open spec fn occurs_at(s: Seq<char>, pattern: Seq<char>, at: int) -> bool {
    &&& 0 <= at
    &&& at + pattern.len() <= s.len()
    &&& s.subrange(at, at + pattern.len()) == pattern
}

/// Whether `pattern` stands somewhere in `s`.
pub open spec fn has_infix(s: Seq<char>, pattern: Seq<char>) -> bool {
    exists|at: int| occurs_at(s, pattern, at)
}

/// The decimal digit for `d`, which is below ten.
pub open spec fn digit(d: nat) -> char {
    if d == 0 {
        '0'
    } else if d == 1 {
        '1'
    } else if d == 2 {
        '2'
    } else if d == 3 {
        '3'
    } else if d == 4 {
        '4'
    } else if d == 5 {
        '5'
    } else if d == 6 {
        '6'
    } else if d == 7 {
        '7'
    } else if d == 8 {
        '8'
    } else {
        '9'
    }
}

/// `n` written in decimal, most significant digit first, without padding.
pub open spec fn decimal(n: nat) -> Seq<char>
    decreases n,
{
    if n < 10 {
        seq![digit(n)]
    } else {
        decimal(n / 10).push(digit(n % 10))
    }
}

proof fn lemma_trim_start(s: Seq<char>, from: int)
    requires
        0 <= from <= s.len(),
        forall|i: int| 0 <= i < from ==> white_space(#[trigger] s[i]),
        from < s.len() ==> !white_space(s[from]),
    ensures
        trim_start(s) == s.subrange(from, s.len() as int),
    decreases from,
{
    if from == 0 {
        assert(s.subrange(0, s.len() as int) =~= s);
    } else {
        let rest = s.drop_first();
        assert forall|i: int| 0 <= i < from - 1 implies white_space(#[trigger] rest[i]) by {
            assert(rest[i] == s[i + 1]);
        }
        lemma_trim_start(rest, from - 1);
        assert(rest.subrange(from - 1, rest.len() as int) =~= s.subrange(from, s.len() as int));
    }
}

proof fn lemma_trim_end(s: Seq<char>, to: int)
    requires
        0 <= to <= s.len(),
        forall|i: int| to <= i < s.len() ==> white_space(#[trigger] s[i]),
        0 < to ==> !white_space(s[to - 1]),
    ensures
        trim_end(s) == s.subrange(0, to),
    decreases s.len() - to,
{
    if to == s.len() {
        assert(s.subrange(0, to) =~= s);
    } else {
        let rest = s.drop_last();
        lemma_trim_end(rest, to);
        assert(rest.subrange(0, to) =~= s.subrange(0, to));
    }
}

/// A blank text trims to nothing.
pub proof fn lemma_trimmed_blank(s: Seq<char>)
    requires
        blank(s),
    ensures
        trimmed(s) == Seq::<char>::empty(),
{
    lemma_trim_start(s, s.len() as int);
    assert(s.subrange(s.len() as int, s.len() as int) =~= Seq::<char>::empty());
}

proof fn lemma_trim_start_blank(s: Seq<char>)
    ensures
        !blank(s) ==> !blank(trim_start(s)),
    decreases s.len(),
{
    if s.len() > 0 && white_space(s.first()) && !blank(s) {
        let rest = s.drop_first();
        let i = choose|i: int| 0 <= i < s.len() && !white_space(#[trigger] s[i]);
        assert(rest[i - 1] == s[i]);
        lemma_trim_start_blank(rest);
    }
}

proof fn lemma_trim_end_blank(s: Seq<char>)
    ensures
        !blank(s) ==> trim_end(s).len() > 0,
    decreases s.len(),
{
    if s.len() > 0 && white_space(s.last()) && !blank(s) {
        let rest = s.drop_last();
        let i = choose|i: int| 0 <= i < s.len() && !white_space(#[trigger] s[i]);
        assert(rest[i] == s[i]);
        lemma_trim_end_blank(rest);
    }
}

/// A text trims to nothing exactly if it is blank.
pub proof fn lemma_trimmed_blank_iff(s: Seq<char>)
    ensures
        (trimmed(s).len() == 0) == blank(s),
{
    if blank(s) {
        lemma_trimmed_blank(s);
    } else {
        lemma_trim_start_blank(s);
        lemma_trim_end_blank(trim_start(s));
    }
}

/// Where the first and the last character that are not white space stand at
/// `from` and `to - 1`, the trimmed text is what lies between them.
pub proof fn lemma_trimmed_between(s: Seq<char>, from: int, to: int)
    requires
        0 <= from < to <= s.len(),
        forall|i: int| 0 <= i < from ==> white_space(#[trigger] s[i]),
        forall|i: int| to <= i < s.len() ==> white_space(#[trigger] s[i]),
        !white_space(s[from]),
        !white_space(s[to - 1]),
    ensures
        trimmed(s) == s.subrange(from, to),
{
    lemma_trim_start(s, from);
    let tail = s.subrange(from, s.len() as int);
    assert forall|i: int| to - from <= i < tail.len() implies white_space(#[trigger] tail[i]) by {
        assert(tail[i] == s[from + i]);
    }
    assert(tail[to - from - 1] == s[to - 1]);
    lemma_trim_end(tail, to - from);
    assert(tail.subrange(0, to - from) =~= s.subrange(from, to));
}

/// Removes leading and trailing white space.
pub fn trim(s: &str) -> (kept: &str)
    ensures
        kept@ == trimmed(s@),
{
    let len = s.unicode_len();
    let mut from: usize = 0;
    let mut to: usize = 0;
    let mut i: usize = 0;
    for c in it: s.chars()
        invariant
            it.seq() == s@,
            i == it.index(),
            len == s@.len(),
            from <= to <= i,
            from == to ==> to == 0 && forall|j: int| 0 <= j < i ==> white_space(#[trigger] s@[j]),
            from < to ==> {
                &&& !white_space(s@[from as int])
                &&& !white_space(s@[to - 1])
                &&& forall|j: int| 0 <= j < from ==> white_space(#[trigger] s@[j])
                &&& forall|j: int| to <= j < i ==> white_space(#[trigger] s@[j])
            },
    {
        if !c.is_whitespace() {
            if from == to {
                from = i;
            }
            to = i + 1;
        }
        i = i + 1;
    }
    proof {
        if from < to {
            lemma_trimmed_between(s@, from as int, to as int);
        } else {
            lemma_trimmed_blank(s@);
            assert(s@.subrange(0, 0) =~= Seq::<char>::empty());
        }
    }
    s.substring_char(from, to)
}

fn digit_text(d: usize) -> (text: &'static str)
    requires
        d < 10,
    ensures
        text@ == seq![digit(d as nat)],
{
    proof {
        reveal_strlit("0");
        reveal_strlit("1");
        reveal_strlit("2");
        reveal_strlit("3");
        reveal_strlit("4");
        reveal_strlit("5");
        reveal_strlit("6");
        reveal_strlit("7");
        reveal_strlit("8");
        reveal_strlit("9");
    }
    let text = if d == 0 {
        "0"
    } else if d == 1 {
        "1"
    } else if d == 2 {
        "2"
    } else if d == 3 {
        "3"
    } else if d == 4 {
        "4"
    } else if d == 5 {
        "5"
    } else if d == 6 {
        "6"
    } else if d == 7 {
        "7"
    } else if d == 8 {
        "8"
    } else {
        "9"
    };
    assert(text@ =~= seq![digit(d as nat)]);
    text
}

/// Writes `n` in decimal.
pub fn decimal_string(n: usize) -> (text: String)
    ensures
        text@ == decimal(n as nat),
    decreases n,
{
    if n < 10 {
        String::from_str(digit_text(n))
    } else {
        let mut text = decimal_string(n / 10);
        text.append(digit_text(n % 10));
        assert(text@ =~= decimal((n / 10) as nat).push(digit((n % 10) as nat)));
        text
    }
}

} // verus!
