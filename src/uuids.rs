//! Identifiers made of a two-letter family prefix, a hyphen and twenty random characters.
use vstd::prelude::*;

verus! {

/// A name for whether `text` holds a match of the regular expression `pattern`; `None`
/// where the pattern does not compile.
pub uninterp spec fn regex_matches(pattern: Seq<char>, text: Seq<char>) -> Option<bool>;

/// Relies on `regex::Regex::new` (compiling `pattern`) and `regex::Regex::is_match`
/// (whether a match occurs anywhere in `text`).
#[verifier::external_body]
fn regex_is_match(pattern: &str, text: &str) -> (r: Option<bool>)
    ensures
        r == regex_matches(pattern@, text@),
{
    match regex::Regex::new(pattern) {
        Ok(re) => Some(re.is_match(text)),
        Err(_) => None,
    }
}

/// Relies on `nanoid::format` with `nanoid::rngs::default`: `size` characters, each one
/// of `alphabet`. It panics on an alphabet longer than 255 and never returns for an
/// empty alphabet or a zero size; it counts bytes, so the alphabet is ASCII.
#[verifier::external_body]
fn random_chars(alphabet: &[char], size: usize) -> (r: String)
    requires
        0 < alphabet@.len() <= 255,
        0 < size,
        forall|i: int| 0 <= i < alphabet@.len() ==> (#[trigger] alphabet@[i] as u32) < 128,
    ensures
        r@.len() == size,
        forall|i: int| 0 <= i < r@.len() ==> alphabet@.contains(#[trigger] r@[i]),
{
    nanoid::format(nanoid::rngs::default, alphabet, size)
}

/// The families of identifiers, usually the type of object identified.
#[derive(Debug, Clone, Copy, PartialEq, Eq, Structural)]
pub enum Family {
    Node,
    Document,
    File,
    Snapshot,
    Project,
    Session,
    Kernel,
    Client,
}

pub open spec fn family_prefix(f: Family) -> Seq<char> {
    match f {
        Family::Node => "no"@,
        Family::Document => "do"@,
        Family::File => "fi"@,
        Family::Snapshot => "sn"@,
        Family::Project => "pr"@,
        Family::Session => "se"@,
        Family::Kernel => "ke"@,
        Family::Client => "cl"@,
    }
}

impl Family {
    /// The two-letter prefix of the family's identifiers.
    pub fn as_str(&self) -> (r: &'static str)
        ensures
            r@ == family_prefix(*self),
    {
        match self {
            Family::Node => "no",
            Family::Document => "do",
            Family::File => "fi",
            Family::Snapshot => "sn",
            Family::Project => "pr",
            Family::Session => "se",
            Family::Kernel => "ke",
            Family::Client => "cl",
        }
    }
}

/// The number of random characters in an identifier.
pub const RANDOM_LENGTH: usize = 20;

/// The separator between the family and the random part.
pub const SEPARATOR: &'static str = "-";

/// The `i`-th character of `0-9a-zA-Z`.
pub open spec fn alphabet_char(i: int) -> char {
    if i < 10 {
        ('0' as int + i) as char
    } else if i < 36 {
        ('a' as int + (i - 10)) as char
    } else {
        ('A' as int + (i - 36)) as char
    }
}

/// The characters of an identifier's random part: digits and lower-case letters for
/// projects (whose identifiers name images), and upper-case letters too for the rest.
pub open spec fn alphabet_of(f: Family) -> Seq<char> {
    Seq::new(if f == Family::Project { 36 } else { 62 }, |i: int| alphabet_char(i))
}

fn alphabet(f: Family) -> (r: Vec<char>)
    ensures
        r@ == alphabet_of(f),
        forall|i: int| 0 <= i < r@.len() ==> (#[trigger] r@[i] as u32) < 128,
{
    let n: usize = if f == Family::Project { 36 } else { 62 };
    let mut out: Vec<char> = Vec::new();
    let mut i: usize = 0;
    while i < n
        invariant
            n == alphabet_of(f).len(),
            i <= n,
            out@ == alphabet_of(f).subrange(0, i as int),
            forall|j: int| 0 <= j < out@.len() ==> (#[trigger] out@[j] as u32) < 128,
        decreases n - i,
    {
        let c = if i < 10 {
            (('0' as u8) + (i as u8)) as char
        } else if i < 36 {
            (('a' as u8) + ((i - 10) as u8)) as char
        } else {
            (('A' as u8) + ((i - 36) as u8)) as char
        };
        out.push(c);
        assert(out@ =~= alphabet_of(f).subrange(0, i + 1));
        i = i + 1;
    }
    assert(alphabet_of(f).subrange(0, n as int) =~= alphabet_of(f));
    out
}

/// A new identifier of family `f`: its prefix, `-`, and twenty random characters of its
/// alphabet.
pub fn generate(f: Family) -> (r: String)
    ensures
        r@.len() == 3 + RANDOM_LENGTH,
        r@.subrange(0, 3) == family_prefix(f) + SEPARATOR@,
        forall|i: int| 3 <= i < r@.len() ==> alphabet_of(f).contains(#[trigger] r@[i]),
{
    let chars = alphabet(f);
    let random = random_chars(chars.as_slice(), RANDOM_LENGTH);
    let mut id = f.as_str().to_string();
    proof {
        reveal_strlit("no");
        reveal_strlit("do");
        reveal_strlit("fi");
        reveal_strlit("sn");
        reveal_strlit("pr");
        reveal_strlit("se");
        reveal_strlit("ke");
        reveal_strlit("cl");
        reveal_strlit("-");
    }
    id.append(SEPARATOR);
    let ghost head = id@;
    id.append(random.as_str());
    assert(id@.subrange(0, 3) =~= head);
    assert forall|i: int| 3 <= i < id@.len() implies alphabet_of(f).contains(#[trigger] id@[i]) by {
        assert(id@[i] == random@[i - 3]);
    }
    id
}

/// The pattern that identifiers of family `f` match.
pub open spec fn id_pattern(f: Family) -> Seq<char> {
    family_prefix(f) + SEPARATOR@ + if f == Family::Project {
        "[0-9a-z]{20}"@
    } else {
        "[0-9a-zA-Z]{20}"@
    }
}

/// Whether `id` holds an identifier of family `f`.
pub fn matches(f: Family, id: &str) -> (r: bool)
    ensures
        r == (regex_matches(id_pattern(f), id@) == Some(true)),
{
    let mut pattern = f.as_str().to_string();
    pattern.append(SEPARATOR);
    if f == Family::Project {
        pattern.append("[0-9a-z]{20}");
    } else {
        pattern.append("[0-9a-zA-Z]{20}");
    }
    match regex_is_match(pattern.as_str(), id) {
        Some(b) => b,
        None => false,
    }
}

/// A string that is not an identifier of the family it should be.
#[derive(Debug)]
pub enum UuidError {
    InvalidUuid { family: String, id: String },
}

/// `id` where it is an identifier of family `f`, else an error naming both.
pub fn assert_id(f: Family, id: &str) -> (r: Result<String, UuidError>)
    ensures
        match r {
            Ok(s) => s@ == id@ && regex_matches(id_pattern(f), id@) == Some(true),
            Err(UuidError::InvalidUuid { family, id: bad }) => regex_matches(id_pattern(f), id@)
                != Some(true) && family@ == family_prefix(f) && bad@ == id@,
        },
{
    if matches(f, id) {
        Ok(id.to_string())
    } else {
        Err(UuidError::InvalidUuid { family: f.as_str().to_string(), id: id.to_string() })
    }
}

} // verus!
