use vstd::prelude::*;

verus! {

/// The characters of a string slice, in order.
pub fn chars_of(s: &str) -> (r: Vec<char>)
    ensures
        r@ == s@,
{
    let mut v: Vec<char> = Vec::new();
    for c in it: s.chars()
        invariant
            v@ == it.seq().take(it.index()),
    {
        v.push(c);
    }
    v
}

/// `String::push`: appends one character at the end of the string.
#[verifier::external_body]
fn push_char(s: &mut String, c: char)
    ensures
        final(s)@ == old(s)@.push(c),
{
    s.push(c);
}

/// Appends the characters `chars[from..to]` to `s`.
pub fn push_chars(s: &mut String, chars: &Vec<char>, from: usize, to: usize)
    requires
        from <= to <= chars@.len(),
    ensures
        final(s)@ == old(s)@ + chars@.subrange(from as int, to as int),
{
    let mut i = from;
    while i < to
        invariant
            from <= i <= to <= chars@.len(),
            s@ == old(s)@ + chars@.subrange(from as int, i as int),
        decreases to - i,
    {
        push_char(s, chars[i]);
        i = i + 1;
        assert(s@ =~= old(s)@ + chars@.subrange(from as int, i as int));
    }
}

/// A new string holding `chars[from..to]`.
pub fn string_of(chars: &Vec<char>, from: usize, to: usize) -> (r: String)
    requires
        from <= to <= chars@.len(),
    ensures
        r@ == chars@.subrange(from as int, to as int),
{
    let mut s = String::new();
    push_chars(&mut s, chars, from, to);
    assert(s@ =~= chars@.subrange(from as int, to as int));
    s
}

/// The concatenation of two string slices.
pub fn concatenate(a: &str, b: &str) -> (r: String)
    ensures
        r@ == a@ + b@,
{
    let ac = chars_of(a);
    let bc = chars_of(b);
    let mut s = string_of(&ac, 0, ac.len());
    push_chars(&mut s, &bc, 0, bc.len());
    assert(ac@.subrange(0, ac@.len() as int) =~= a@);
    assert(bc@.subrange(0, bc@.len() as int) =~= b@);
    s
}

/// A copy of a string slice as an owned `String`.
pub fn owned(a: &str) -> (r: String)
    ensures
        r@ == a@,
{
    let ac = chars_of(a);
    let r = string_of(&ac, 0, ac.len());
    assert(ac@.subrange(0, ac@.len() as int) =~= a@);
    r
}

/// Unicode's `White_Space` property, which is what `char::is_whitespace`
/// and `str::trim` go by: U+0009..U+000D, U+0020, U+0085, U+00A0, U+1680,
/// U+2000..U+200A, U+2028, U+2029, U+202F, U+205F and U+3000.
pub open spec fn is_white_space(c: char) -> bool {
    let u = c as u32;
    ||| 0x09 <= u <= 0x0d
    ||| u == 0x20
    ||| u == 0x85
    ||| u == 0xa0
    ||| u == 0x1680
    ||| 0x2000 <= u <= 0x200a
    ||| u == 0x2028
    ||| u == 0x2029
    ||| u == 0x202f
    ||| u == 0x205f
    ||| u == 0x3000
}

/// Whether `c` has the `White_Space` property.
pub fn is_white_space_char(c: char) -> (r: bool)
    ensures
        r == is_white_space(c),
{
    let u = c as u32;
    (0x09 <= u && u <= 0x0d) || u == 0x20 || u == 0x85 || u == 0xa0 || u == 0x1680 || (0x2000
        <= u && u <= 0x200a) || u == 0x2028 || u == 0x2029 || u == 0x202f || u == 0x205f || u
        == 0x3000
}

/// A text is blank when every character in it is white space, that is when
/// trimming it (`str::trim`) leaves nothing.
pub open spec fn is_blank(s: Seq<char>) -> bool {
    forall|i: int| 0 <= i < s.len() ==> is_white_space(#[trigger] s[i])
}

/// Whether `s.trim()` is empty.
pub fn is_blank_str(s: &str) -> (r: bool)
    ensures
        r == is_blank(s@),
{
    let cs = chars_of(s);
    let mut i: usize = 0;
    while i < cs.len()
        invariant
            cs@ == s@,
            i <= cs@.len(),
            forall|j: int| 0 <= j < i ==> is_white_space(#[trigger] s@[j]),
        decreases cs.len() - i,
    {
        if !is_white_space_char(cs[i]) {
            return false;
        }
        i = i + 1;
    }
    true
}

/// The code of `c` with ASCII upper-case letters mapped to lower case.
pub open spec fn ascii_lower_code(c: char) -> u32 {
    let u = c as u32;
    if 0x41 <= u <= 0x5a {
        (u + 0x20) as u32
    } else {
        u
    }
}

/// `s` ends with `suffix` when ASCII letters are compared without regard to
/// case.
pub open spec fn ends_with_ignoring_ascii_case(s: Seq<char>, suffix: Seq<char>) -> bool {
    &&& suffix.len() <= s.len()
    &&& forall|i: int|
        0 <= i < suffix.len() ==> ascii_lower_code(#[trigger] s[s.len() - suffix.len() + i])
            == ascii_lower_code(suffix[i])
}

fn ascii_lower_code_of(c: char) -> (r: u32)
    ensures
        r == ascii_lower_code(c),
{
    let u = c as u32;
    if 0x41 <= u && u <= 0x5a {
        u + 0x20
    } else {
        u
    }
}

/// Whether `s` ends with `suffix`, ASCII letters compared without regard to
/// case.
pub fn ends_with_ignoring_ascii_case_str(s: &str, suffix: &str) -> (r: bool)
    ensures
        r == ends_with_ignoring_ascii_case(s@, suffix@),
{
    let sc = chars_of(s);
    let xc = chars_of(suffix);
    if xc.len() > sc.len() {
        return false;
    }
    let off = sc.len() - xc.len();
    let mut i: usize = 0;
    while i < xc.len()
        invariant
            sc@ == s@,
            xc@ == suffix@,
            xc@.len() <= sc@.len(),
            off == sc@.len() - xc@.len(),
            i <= xc@.len(),
            forall|j: int|
                0 <= j < i ==> ascii_lower_code(#[trigger] s@[s@.len() - suffix@.len() + j])
                    == ascii_lower_code(suffix@[j]),
        decreases xc.len() - i,
    {
        assert(off + i < sc.len());
        if ascii_lower_code_of(sc[off + i]) != ascii_lower_code_of(xc[i]) {
            return false;
        }
        i = i + 1;
    }
    true
}


/// The characters of an optional string.
pub open spec fn opt_view(o: Option<String>) -> Option<Seq<char>> {
    match o {
        Some(s) => Some(s@),
        None => None,
    }
}

} // verus!
