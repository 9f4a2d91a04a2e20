//! Character classes of the pattern syntax, and scanning of runs of one class.
use vstd::prelude::*;

verus! {

/// A class of characters that a scan can run over.
#[derive(Clone, Copy, Debug, PartialEq, Eq)]
pub enum CharClass {
    /// A character that may stand in a literal run: any but `/ ? & # = { } !`.
    Literal,
    /// A character that may stand in an identifier.
    Ident,
    /// A decimal digit.
    Digit,
    /// Any character but `/`.
    Section,
    /// Any character but `/`, `?` and `#`.
    LastSection,
}

/// The structural characters of the pattern syntax.
pub open spec fn is_structural(c: char) -> bool {
    c == '/' || c == '?' || c == '&' || c == '#' || c == '=' || c == '{' || c == '}' || c == '!'
}

/// The characters that no identifier contains: space, tab, line feed and the
/// reserved characters ``-*/+#?&^@%$'"`~;,.|\{}[]()<>=``.
pub open spec fn is_reserved(c: char) -> bool {
    c == ' ' || c == '\t' || c == '\n' || c == '-' || c == '*' || c == '/' || c == '+' || c == '#'
        || c == '?' || c == '&' || c == '^' || c == '@' || c == '%' || c == '$' || c == '\''
        || c == '"' || c == '`' || c == '~' || c == ';' || c == ',' || c == '.' || c == '|' || c
        == '\\' || c == '{' || c == '}' || c == '[' || c == ']' || c == '(' || c == ')' || c == '<'
        || c == '>' || c == '='
}

/// The decimal digits.
pub open spec fn is_digit(c: char) -> bool {
    '0' <= c <= '9'
}

impl CharClass {
    /// Whether `c` belongs to the class.
    pub open spec fn holds(self, c: char) -> bool {
        match self {
            CharClass::Literal => !is_structural(c),
            CharClass::Ident => !is_reserved(c),
            CharClass::Digit => is_digit(c),
            CharClass::Section => c != '/',
            CharClass::LastSection => c != '/' && c != '?' && c != '#',
        }
    }

    /// Whether `c` belongs to the class.
    pub fn contains(self, c: char) -> (b: bool)
        ensures
            b == self.holds(c),
    {
        match self {
            CharClass::Literal => !(c == '/' || c == '?' || c == '&' || c == '#' || c == '=' || c
                == '{' || c == '}' || c == '!'),
            CharClass::Ident => !(c == ' ' || c == '\t' || c == '\n' || c == '-' || c == '*' || c
                == '/' || c == '+' || c == '#' || c == '?' || c == '&' || c == '^' || c == '@' || c
                == '%' || c == '$' || c == '\'' || c == '"' || c == '`' || c == '~' || c == ';' || c
                == ',' || c == '.' || c == '|' || c == '\\' || c == '{' || c == '}' || c == '[' || c
                == ']' || c == '(' || c == ')' || c == '<' || c == '>' || c == '='),
            CharClass::Digit => '0' <= c && c <= '9',
            CharClass::Section => c != '/',
            CharClass::LastSection => c != '/' && c != '?' && c != '#',
        }
    }
}

/// Where the longest run of characters of `class` that starts at `from` ends:
/// the first position at or after `from` that holds a character outside the
/// class, or the end of `s`.
pub open spec fn run_end(s: Seq<char>, from: int, class: CharClass) -> int
    decreases s.len() - from,
{
    if 0 <= from < s.len() && class.holds(s[from]) {
        run_end(s, from + 1, class)
    } else {
        from
    }
}

/// What `run_end` means: every character of the run is of the class, and the
/// run stops only at the end of `s` or before a character outside the class.
pub proof fn lemma_run_end(s: Seq<char>, from: int, class: CharClass)
    requires
        0 <= from <= s.len(),
    ensures
        from <= run_end(s, from, class) <= s.len(),
        forall|i: int| from <= i < run_end(s, from, class) ==> class.holds(#[trigger] s[i]),
        run_end(s, from, class) < s.len() ==> !class.holds(s[run_end(s, from, class)]),
    decreases s.len() - from,
{
    if from < s.len() && class.holds(s[from]) {
        lemma_run_end(s, from + 1, class);
    }
}

/// A run is known by its two properties: if all of `s[from..end]` is of the
/// class and the run cannot go on at `end`, then `end` is where it ends.
pub proof fn lemma_run_end_unique(s: Seq<char>, from: int, end: int, class: CharClass)
    requires
        0 <= from <= end <= s.len(),
        forall|i: int| from <= i < end ==> class.holds(#[trigger] s[i]),
        end < s.len() ==> !class.holds(s[end]),
    ensures
        run_end(s, from, class) == end,
    decreases end - from,
{
    if from < end {
        lemma_run_end_unique(s, from + 1, end, class);
    }
}

/// Scans the longest run of characters of `class` that starts at `from`.
pub(crate) fn scan_run(chars: &Vec<char>, from: usize, class: CharClass) -> (end: usize)
    requires
        from <= chars.len(),
    ensures
        end == run_end(chars@, from as int, class),
        from <= end <= chars.len(),
{
    let mut end: usize = from;
    while end < chars.len() && class.contains(chars[end])
        invariant
            from <= end <= chars.len(),
            run_end(chars@, from as int, class) == run_end(chars@, end as int, class),
        decreases chars.len() - end,
    {
        end += 1;
    }
    end
}

/// The number that a sequence of decimal digits denotes. The empty sequence
/// denotes zero.
pub open spec fn decimal_value(digits: Seq<char>) -> nat
    decreases digits.len(),
{
    if digits.len() == 0 {
        0
    } else {
        decimal_value(digits.drop_last()) * 10 + (digits.last() as nat - '0' as nat) as nat
    }
}

/// Reads `chars[from..to]`, a run of decimal digits, as a number. Returns
/// `None` if and only if the number does not fit a `usize`.
pub(crate) fn read_decimal(chars: &Vec<char>, from: usize, to: usize) -> (r: Option<usize>)
    requires
        from <= to <= chars.len(),
        forall|i: int| from <= i < to ==> is_digit(#[trigger] chars@[i]),
    ensures
        r is Some <==> decimal_value(chars@.subrange(from as int, to as int)) <= usize::MAX,
        r is Some ==> r->Some_0 == decimal_value(chars@.subrange(from as int, to as int)),
{
    let mut value: usize = 0;
    let mut at: usize = from;
    while at < to
        invariant
            from <= at <= to <= chars.len(),
            forall|i: int| from <= i < to ==> is_digit(#[trigger] chars@[i]),
            value == decimal_value(chars@.subrange(from as int, at as int)),
        decreases to - at,
    {
        let c = chars[at];
        let digit: usize = (c as u32 - '0' as u32) as usize;
        proof {
            let longer = chars@.subrange(from as int, at + 1);
            assert(longer.drop_last() =~= chars@.subrange(from as int, at as int));
            assert(longer.last() == c);
            assert(decimal_value(longer) == value * 10 + digit);
            lemma_decimal_value_grows(chars@, from as int, at + 1, to as int);
        }
        let scaled = match value.checked_mul(10) {
            Some(scaled) => scaled,
            None => { return None; },
        };
        value = match scaled.checked_add(digit) {
            Some(sum) => sum,
            None => { return None; },
        };
        at += 1;
    }
    Some(value)
}

/// More digits never denote a smaller number.
pub proof fn lemma_decimal_value_grows(s: Seq<char>, from: int, mid: int, to: int)
    requires
        0 <= from <= mid <= to <= s.len(),
    ensures
        decimal_value(s.subrange(from, mid)) <= decimal_value(s.subrange(from, to)),
    decreases to - mid,
{
    if mid < to {
        lemma_decimal_value_grows(s, from, mid, to - 1);
        let longer = s.subrange(from, to);
        assert(longer.drop_last() =~= s.subrange(from, to - 1));
        assert(decimal_value(longer) >= decimal_value(longer.drop_last()) * 10);
    }
}

/// The characters of `s`, in order.
pub fn chars_of(s: &str) -> (v: Vec<char>)
    ensures
        v@ == s@,
{
    let mut v: Vec<char> = Vec::new();
    for c in it: s.chars()
        invariant
            it.seq() == s@,
            v@ == it.seq().take(it.index() as int),
    {
        v.push(c);
    }
    v
}

/// Whether two sequences of characters are equal.
pub fn same_chars(a: &Vec<char>, b: &Vec<char>) -> (r: bool)
    ensures
        r == (a@ == b@),
{
    if a.len() != b.len() {
        return false;
    }
    let mut k: usize = 0;
    while k < a.len()
        invariant
            a.len() == b.len(),
            k <= a.len(),
            forall|j: int| 0 <= j < k ==> a@[j] == b@[j],
        decreases a.len() - k,
    {
        if a[k] != b[k] {
            return false;
        }
        k += 1;
    }
    assert(a@ =~= b@);
    true
}

/// Whether two strings hold the same characters.
pub fn same_text(a: &str, b: &str) -> (r: bool)
    ensures
        r == (a@ == b@),
{
    let x = chars_of(a);
    let y = chars_of(b);
    same_chars(&x, &y)
}

} // verus!
