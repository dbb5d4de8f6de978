//! JSON objects whose values are all strings, as compact text.

use vstd::prelude::*;

verus! {

/// A hexadecimal digit, in lower case.
pub open spec fn hex_char(digit: nat) -> char {
    if digit < 10 {
        (48 + digit) as char
    } else {
        (87 + digit) as char
    }
}

/// A character as it stands between the quotes of a JSON string.
pub open spec fn json_char(c: char) -> Seq<char> {
    if c == '"' {
        seq!['\\', '"']
    } else if c == '\\' {
        seq!['\\', '\\']
    } else if c == '\u{8}' {
        seq!['\\', 'b']
    } else if c == '\t' {
        seq!['\\', 't']
    } else if c == '\n' {
        seq!['\\', 'n']
    } else if c == '\u{c}' {
        seq!['\\', 'f']
    } else if c == '\r' {
        seq!['\\', 'r']
    } else if (c as nat) < 32 {
        seq!['\\', 'u', '0', '0', hex_char(c as nat / 16), hex_char(c as nat % 16)]
    } else {
        seq![c]
    }
}

/// A text as it stands between the quotes of a JSON string.
pub open spec fn json_chars(s: Seq<char>) -> Seq<char>
    decreases s.len(),
{
    if s.len() == 0 {
        seq![]
    } else {
        json_chars(s.drop_last()) + json_char(s.last())
    }
}

/// A JSON string.
pub open spec fn json_string(s: Seq<char>) -> Seq<char> {
    seq!['"'] + json_chars(s) + seq!['"']
}

/// A member of a JSON object: its name and its value.
pub open spec fn json_member(member: (Seq<char>, Seq<char>)) -> Seq<char> {
    json_string(member.0) + seq![':'] + json_string(member.1)
}

/// Members of a JSON object, with commas between them.
pub open spec fn json_members(members: Seq<(Seq<char>, Seq<char>)>) -> Seq<char>
    decreases members.len(),
{
    if members.len() == 0 {
        seq![]
    } else if members.len() == 1 {
        json_member(members[0])
    } else {
        json_members(members.drop_last()) + seq![','] + json_member(members.last())
    }
}

/// A JSON object with the given members, in compact form.
pub open spec fn json_object(members: Seq<(Seq<char>, Seq<char>)>) -> Seq<char> {
    seq!['{'] + json_members(members) + seq!['}']
}

/// The members that a vector of names and values stands for.
pub open spec fn members_of(members: Seq<(String, String)>) -> Seq<(Seq<char>, Seq<char>)> {
    members.map_values(|member: (String, String)| (member.0@, member.1@))
}

/// `Display` of a `serde_json::Value` that was collected from names and strings: the JSON object
/// with those members in compact form. With names in ascending order, which the first characters
/// decide here, the members keep the order in which they were given.
#[verifier::external_body]
pub(crate) fn json_object_text(members: Vec<(String, String)>) -> (text: String)
    requires
        forall|i: int| 0 <= i < members@.len() ==> (#[trigger] members@[i]).0@.len() > 0,
        forall|i: int, j: int|
            0 <= i < j < members@.len() ==> (#[trigger] members@[i]).0@[0] < (
            #[trigger] members@[j]).0@[0],
    ensures
        text@ == json_object(members_of(members@)),
{
    serde_json::Value::from_iter(members).to_string()
}

/// Whether no character is a control character: below the space.
pub open spec fn no_controls(s: Seq<char>) -> bool {
    forall|i: int| 0 <= i < s.len() ==> ' ' <= #[trigger] s[i]
}

proof fn lemma_json_char_no_controls(c: char)
    ensures
        no_controls(json_char(c)),
{
    let n = c as nat;
    if n < 32 {
        assert(n / 16 < 2 && n % 16 < 16);
        assert(' ' <= hex_char(n / 16) && ' ' <= hex_char(n % 16));
    }
}

proof fn lemma_json_chars_no_controls(s: Seq<char>)
    ensures
        no_controls(json_chars(s)),
    decreases s.len(),
{
    if s.len() > 0 {
        lemma_json_chars_no_controls(s.drop_last());
        lemma_json_char_no_controls(s.last());
    }
}

proof fn lemma_json_members_no_controls(members: Seq<(Seq<char>, Seq<char>)>)
    ensures
        no_controls(json_members(members)),
    decreases members.len(),
{
    if members.len() > 0 {
        lemma_json_chars_no_controls(members.last().0);
        lemma_json_chars_no_controls(members.last().1);
        lemma_json_members_no_controls(members.drop_last());
    }
}

/// A JSON object is one line whatever its members hold, and trimming that line leaves it as it is:
/// it has no control characters, starts with a brace and ends with one.
pub proof fn law_object_is_one_line(members: Seq<(Seq<char>, Seq<char>)>)
    ensures
        no_controls(json_object(members)),
        !json_object(members).contains('\n'),
        crate::text::trimmed(json_object(members)) == json_object(members),
        crate::text::trimmed(json_object(members).push('\n')) == json_object(members),
{
    let object = json_object(members);
    lemma_json_members_no_controls(members);
    assert(no_controls(object));
    assert(object[0] == '{');
    assert(object.last() == '}');
    crate::text::lemma_trimmed_line(object, '\n');
}

proof fn lemma_json_chars_front(s: Seq<char>)
    requires
        s.len() > 0,
    ensures
        json_chars(s) == json_char(s[0]) + json_chars(s.drop_first()),
    decreases s.len(),
{
    if s.len() == 1 {
        assert(json_chars(s.drop_last()) =~= Seq::<char>::empty());
        assert(json_chars(s.drop_first()) =~= Seq::<char>::empty());
        assert(json_chars(s) =~= json_char(s[0]) + json_chars(s.drop_first()));
    } else {
        lemma_json_chars_front(s.drop_last());
        assert(s.drop_last().drop_first() =~= s.drop_first().drop_last());
        assert(json_chars(s) =~= json_char(s[0]) + json_chars(s.drop_first()));
    }
}

/// What stands for a character tells which one it is, whatever follows.
proof fn lemma_json_char_unambiguous(c: char, d: char, x: Seq<char>, y: Seq<char>)
    requires
        json_char(c) + x == json_char(d) + y,
    ensures
        c == d,
        x == y,
{
    let a = json_char(c) + x;
    let b = json_char(d) + y;
    assert(a[0] == json_char(c)[0]);
    assert(b[0] == json_char(d)[0]);
    if json_char(c).len() > 1 && json_char(d).len() > 1 {
        assert(a[1] == json_char(c)[1]);
        assert(b[1] == json_char(d)[1]);
        if json_char(c).len() == 6 && json_char(d).len() == 6 {
            assert(a[4] == json_char(c)[4] && a[5] == json_char(c)[5]);
            assert(b[4] == json_char(d)[4] && b[5] == json_char(d)[5]);
            assert(c as nat / 16 == d as nat / 16);
            assert(c as nat % 16 == d as nat % 16);
        }
    }
    assert(c == d);
    let n = json_char(c).len() as int;
    assert(x =~= a.skip(n));
    assert(y =~= b.skip(n));
}

proof fn lemma_json_chars_unambiguous(s: Seq<char>, t: Seq<char>, x: Seq<char>, y: Seq<char>)
    requires
        json_chars(s) + seq!['"'] + x == json_chars(t) + seq!['"'] + y,
    ensures
        s == t,
        x == y,
    decreases s.len() + t.len(),
{
    let a = json_chars(s) + seq!['"'] + x;
    let b = json_chars(t) + seq!['"'] + y;
    if s.len() > 0 {
        lemma_json_chars_front(s);
        assert(a[0] == json_char(s[0])[0]);
    } else {
        assert(a[0] == '"');
    }
    if t.len() > 0 {
        lemma_json_chars_front(t);
        assert(b[0] == json_char(t[0])[0]);
    } else {
        assert(b[0] == '"');
    }
    if s.len() > 0 && t.len() > 0 {
        let rest_a = json_chars(s.drop_first()) + seq!['"'] + x;
        let rest_b = json_chars(t.drop_first()) + seq!['"'] + y;
        assert(a =~= json_char(s[0]) + rest_a);
        assert(b =~= json_char(t[0]) + rest_b);
        lemma_json_char_unambiguous(s[0], t[0], rest_a, rest_b);
        lemma_json_chars_unambiguous(s.drop_first(), t.drop_first(), x, y);
        assert(s =~= seq![s[0]] + s.drop_first());
        assert(t =~= seq![t[0]] + t.drop_first());
    } else {
        assert(s =~= t);
        assert(x =~= a.skip(1));
        assert(y =~= b.skip(1));
    }
}

/// A JSON string tells what text it stands for and where it ends, whatever follows it.
pub proof fn law_json_string_is_unambiguous(
    s: Seq<char>,
    t: Seq<char>,
    x: Seq<char>,
    y: Seq<char>,
)
    requires
        json_string(s) + x == json_string(t) + y,
    ensures
        s == t,
        x == y,
{
    let a = json_string(s) + x;
    let b = json_string(t) + y;
    assert(a.skip(1) =~= json_chars(s) + seq!['"'] + x);
    assert(b.skip(1) =~= json_chars(t) + seq!['"'] + y);
    lemma_json_chars_unambiguous(s, t, x, y);
}

/// A text without quotes, backslashes and control characters stands between the quotes of a JSON
/// string as it is.
pub proof fn law_plain_text_is_kept(s: Seq<char>)
    requires
        forall|i: int|
            0 <= i < s.len() ==> #[trigger] s[i] != '"' && s[i] != '\\' && ' ' <= s[i],
    ensures
        json_string(s) == seq!['"'] + s + seq!['"'],
{
    lemma_plain_chars(s);
}

proof fn lemma_plain_chars(s: Seq<char>)
    requires
        forall|i: int|
            0 <= i < s.len() ==> #[trigger] s[i] != '"' && s[i] != '\\' && ' ' <= s[i],
    ensures
        json_chars(s) == s,
    decreases s.len(),
{
    if s.len() > 0 {
        let front = s.drop_last();
        assert forall|i: int| 0 <= i < front.len() implies #[trigger] front[i] != '"' && front[i]
            != '\\' && ' ' <= front[i] by {
            assert(front[i] == s[i]);
        }
        lemma_plain_chars(front);
        assert(s[s.len() - 1] == s.last());
        assert(json_char(s.last()) =~= seq![s.last()]);
    }
    assert(json_chars(s) =~= s);
}

} // verus!
