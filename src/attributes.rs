use vstd::prelude::*;

verus! {

/// What the first match of regular expression `pattern` in `line` captures in
/// its groups `key` and `value`, as `regex::Regex::captures` finds it; `None`
/// where the pattern does not compile, nothing matches, or a group takes no
/// part in the match.
pub uninterp spec fn captured(pattern: Seq<char>, line: Seq<char>) -> Option<(Seq<char>, Seq<char>)>;

/// Relies on `regex::Regex::new` and `Regex::captures`: the groups `key` and
/// `value` of the first match of `pattern` in `line`.
#[verifier::external_body]
fn key_value_captures(pattern: &str, line: &str) -> (r: Option<(String, String)>)
    ensures
        match r {
            Some((k, v)) => captured(pattern@, line@) == Some((k@, v@)),
            None => captured(pattern@, line@) is None,
        },
{
    let caps = regex::Regex::new(pattern).ok()?.captures(line)?;
    Some((caps.name("key")?.as_str().to_string(), caps.name("value")?.as_str().to_string()))
}

/// The directive syntax in field descriptions: `#[key(value)]`.
pub const ATTRIBUTE_PATTERN: &'static str = "\\s*#\\[(?P<key>\\w+)\\((?P<value>\\w+)\\)\\]";

/// Whether a field's value is returned as a reference into its owner or as
/// an owned value.
#[derive(PartialEq, Eq, Structural, Clone, Copy, Debug)]
pub enum Ownership {
    Borrowed,
    Owned,
}

/// One directive of a field description.
#[derive(PartialEq, Eq, Structural, Clone, Copy, Debug)]
pub enum Attribute {
    Ownership(Ownership),
}

/// The directives of a field description, in line order.
#[derive(Debug)]
pub struct Attributes {
    pub list: Vec<Attribute>,
}

/// The lines of the first `n` characters of `s`, split at each line feed; the
/// last one is the line still open.
pub open spec fn split_prefix(s: Seq<char>, n: nat) -> Seq<Seq<char>>
    decreases n,
{
    if n == 0 || n > s.len() {
        seq![Seq::<char>::empty()]
    } else {
        let p = split_prefix(s, (n - 1) as nat);
        if s[n - 1] == '\n' {
            p.push(Seq::<char>::empty())
        } else {
            p.update(p.len() - 1, p.last().push(s[n - 1]))
        }
    }
}

/// The lines of a text, split at each line feed.
pub open spec fn lines_of(s: Seq<char>) -> Seq<Seq<char>> {
    split_prefix(s, s.len())
}

/// The directive one line holds, if any. A directive of a key or value that
/// the syntax does not know is left out, so that it leaves the ownership at
/// its default.
pub open spec fn line_attribute(line: Seq<char>) -> Option<Attribute> {
    match captured(ATTRIBUTE_PATTERN@, line) {
        Some((key, value)) => if key == "ownership"@ && value == "borrowed"@ {
            Some(Attribute::Ownership(Ownership::Borrowed))
        } else if key == "ownership"@ && value == "owned"@ {
            Some(Attribute::Ownership(Ownership::Owned))
        } else {
            None
        },
        None => None,
    }
}

/// The directives of the first `n` lines, in line order.
pub open spec fn attributes_of(lines: Seq<Seq<char>>, n: nat) -> Seq<Attribute>
    decreases n,
{
    if n == 0 || n > lines.len() {
        Seq::empty()
    } else {
        match line_attribute(lines[n - 1]) {
            Some(a) => attributes_of(lines, (n - 1) as nat).push(a),
            None => attributes_of(lines, (n - 1) as nat),
        }
    }
}

/// The first ownership directive of a list, `Borrowed` where there is none.
pub open spec fn spec_ownership(list: Seq<Attribute>) -> Ownership
    decreases list.len(),
{
    if list.len() == 0 {
        Ownership::Borrowed
    } else {
        match list[0] {
            Attribute::Ownership(o) => o,
        }
    }
}

impl Attributes {
    /// No directives.
    pub fn new() -> (r: Attributes)
        ensures
            r.list@ == Seq::<Attribute>::empty(),
    {
        Attributes { list: Vec::new() }
    }

    /// The ownership that the directives choose: the first ownership
    /// directive, `Borrowed` where there is none.
    pub fn ownership(&self) -> (r: Ownership)
        ensures
            r == spec_ownership(self.list@),
    {
        if self.list.len() == 0 {
            Ownership::Borrowed
        } else {
            match self.list[0] {
                Attribute::Ownership(o) => o,
            }
        }
    }
}

/// Splits a text into its lines at each line feed.
pub fn split_lines(s: &String) -> (r: Vec<String>)
    ensures
        r@.map_values(|l: String| l@) == lines_of(s@),
{
    let n = s.as_str().unicode_len();
    let mut r: Vec<String> = Vec::new();
    let mut start: usize = 0;
    let mut i: usize = 0;
    proof {
        assert(s@.subrange(0, 0) =~= Seq::<char>::empty());
        assert(r@.map_values(|l: String| l@) =~= Seq::<Seq<char>>::empty());
        assert(r@.map_values(|l: String| l@).push(s@.subrange(0, 0)) =~= seq![Seq::<char>::empty()]);
    }
    while i < n
        invariant
            n == s@.len(),
            start <= i <= n,
            r@.map_values(|l: String| l@).push(s@.subrange(start as int, i as int)) == split_prefix(s@, i as nat),
        decreases n - i,
    {
        let c = s.as_str().get_char(i);
        let ghost before = r@.map_values(|l: String| l@);
        if c == '\n' {
            r.push(s.as_str().substring_char(start, i).to_owned());
            proof {
                assert(r@.map_values(|l: String| l@) =~= before.push(s@.subrange(start as int, i as int)));
                assert(s@.subrange((i + 1) as int, (i + 1) as int) =~= Seq::<char>::empty());
            }
            start = i + 1;
        } else {
            proof {
                assert(s@.subrange(start as int, (i + 1) as int) =~= s@.subrange(start as int, i as int).push(c));
                assert(before.push(s@.subrange(start as int, (i + 1) as int)) =~= split_prefix(s@, i as nat).update(
                    split_prefix(s@, i as nat).len() - 1,
                    split_prefix(s@, i as nat).last().push(c),
                ));
            }
        }
        i = i + 1;
    }
    r.push(s.as_str().substring_char(start, n).to_owned());
    r
}

/// Reads the directives of a field description, one per line at most. A
/// line whose directive the syntax does not know holds none.
pub fn parse_attributes(desc: &String) -> (r: Attributes)
    ensures
        r.list@ == attributes_of(lines_of(desc@), lines_of(desc@).len()),
{
    let lines = split_lines(desc);
    let ghost ls = lines@.map_values(|l: String| l@);
    let mut list: Vec<Attribute> = Vec::new();
    let mut i: usize = 0;
    while i < lines.len()
        invariant
            ls == lines@.map_values(|l: String| l@),
            ls == lines_of(desc@),
            i <= lines@.len(),
            attributes_of(ls, i as nat) == list@,
        decreases lines@.len() - i,
    {
        proof {
            assert(ls[i as int] == lines@[i as int]@);
        }
        match parse_attributes_line(&lines[i]) {
            Some(a) => {
                list.push(a);
            },
            None => {},
        }
        i = i + 1;
    }
    Attributes { list }
}

/// Reads the directive of one line: `#[ownership(borrowed)]` or
/// `#[ownership(owned)]`; any other line, or a directive of another key or
/// value, holds none.
pub fn parse_attributes_line(line: &String) -> (r: Option<Attribute>)
    ensures
        r == line_attribute(line@),
{
    match key_value_captures(ATTRIBUTE_PATTERN, line.as_str()) {
        None => None,
        Some((key, value)) => {
            if crate::registry::is_named(&key, "ownership") && crate::registry::is_named(&value, "borrowed") {
                Some(Attribute::Ownership(Ownership::Borrowed))
            } else if crate::registry::is_named(&key, "ownership") && crate::registry::is_named(&value, "owned") {
                Some(Attribute::Ownership(Ownership::Owned))
            } else {
                None
            }
        },
    }
}

} // verus!
