//! Text operations over character sequences: the `vault://` identifier
//! prefix, substring search, path segments and decimal numerals.

use vstd::prelude::*;

verus! {

/// The scheme that prefixes every credential identifier.
pub open spec fn vault_scheme() -> Seq<char> {
    seq!['v', 'a', 'u', 'l', 't', ':', '/', '/']
}

/// `s` begins with `prefix`.
pub open spec fn has_prefix(s: Seq<char>, prefix: Seq<char>) -> bool {
    prefix.len() <= s.len() && s.subrange(0, prefix.len() as int) == prefix
}

/// `s` without a leading `vault://`, or `s` itself when it has none.
pub open spec fn strip_vault_scheme(s: Seq<char>) -> Seq<char> {
    if has_prefix(s, vault_scheme()) {
        s.subrange(vault_scheme().len() as int, s.len() as int)
    } else {
        s
    }
}

proof fn lemma_vault_literal()
    ensures
        "vault://"@ == vault_scheme(),
{
    reveal_strlit("vault://");
    assert("vault://"@ =~= vault_scheme());
}

/// The name a backend knows a credential by: its identifier without the
/// `vault://` scheme.
pub fn strip_vault_prefix(id: &str) -> (name: String)
    ensures
        name@ == strip_vault_scheme(id@),
{
    proof {
        lemma_vault_literal();
    }
    let n = id.unicode_len();
    if n >= 8 {
        let head = String::from_str(id.substring_char(0, 8));
        let scheme = String::from_str("vault://");
        if head == scheme {
            return String::from_str(id.substring_char(8, n));
        }
    }
    String::from_str(id)
}

/// The identifier of the credential a backend knows by `name`.
pub fn vault_id(name: &str) -> (id: String)
    ensures
        id@ == vault_scheme() + name@,
{
    proof {
        lemma_vault_literal();
    }
    String::from_str("vault://").concat(name)
}

/// Stripping the scheme from an identifier made of a name gives the name back.
pub proof fn lemma_strip_vault_id(name: Seq<char>)
    ensures
        strip_vault_scheme(vault_scheme() + name) == name,
{
    let s = vault_scheme() + name;
    assert(s.subrange(0, 8) =~= vault_scheme());
    assert(s.subrange(8, s.len() as int) =~= name);
}

/// `needle` occurs in `hay` starting at position `i`.
pub open spec fn occurs_at(hay: Seq<char>, needle: Seq<char>, i: int) -> bool {
    0 <= i && i + needle.len() <= hay.len() && hay.subrange(i, i + needle.len()) == needle
}

/// `needle` occurs somewhere in `hay`.
pub open spec fn contains_text(hay: Seq<char>, needle: Seq<char>) -> bool {
    exists|i: int| occurs_at(hay, needle, i)
}

/// Whether `needle` occurs in `hay`.
pub fn contains(hay: &str, needle: &str) -> (b: bool)
    ensures
        b == contains_text(hay@, needle@),
{
    let n = hay.unicode_len();
    let m = needle.unicode_len();
    if m > n {
        proof {
            assert forall|i: int| !occurs_at(hay@, needle@, i) by {}
        }
        return false;
    }
    let target = String::from_str(needle);
    let last = n - m;
    let mut i: usize = 0;
    loop
        invariant
            n == hay@.len(),
            m == needle@.len(),
            last == n - m,
            target@ == needle@,
            i <= last,
            forall|j: int| 0 <= j < i ==> !occurs_at(hay@, needle@, j),
        decreases last - i,
    {
        let piece = String::from_str(hay.substring_char(i, i + m));
        if piece == target {
            assert(occurs_at(hay@, needle@, i as int));
            return true;
        }
        if i == last {
            proof {
                assert forall|j: int| !occurs_at(hay@, needle@, j) by {
                    if 0 <= j && j + m <= n && j != i {
                        assert(j < i);
                    }
                }
            }
            return false;
        }
        i = i + 1;
    }
}

/// Where the last `/`-separated segment of `s` begins.
pub open spec fn segment_start(s: Seq<char>) -> int
    decreases s.len(),
{
    if s.len() == 0 {
        0
    } else if s.last() == '/' {
        s.len() as int
    } else {
        segment_start(s.drop_last())
    }
}

/// What follows the last `/` of `s`; all of `s` when it holds none.
pub open spec fn last_segment_of(s: Seq<char>) -> Seq<char> {
    s.subrange(segment_start(s), s.len() as int)
}

/// The last `/`-separated segment of `s`.
pub fn last_segment(s: &str) -> (seg: String)
    ensures
        seg@ == last_segment_of(s@),
{
    let n = s.unicode_len();
    let mut k: usize = n;
    proof {
        assert(s@.subrange(0, n as int) =~= s@);
    }
    while k > 0 && s.get_char(k - 1) != '/'
        invariant
            n == s@.len(),
            k <= n,
            segment_start(s@) == segment_start(s@.subrange(0, k as int)),
        decreases k,
    {
        proof {
            assert(s@.subrange(0, k as int).drop_last() =~= s@.subrange(0, k - 1));
        }
        k = k - 1;
    }
    proof {
        assert(s@.subrange(0, n as int) =~= s@);
        if k > 0 {
            assert(s@.subrange(0, k as int).last() == '/');
        }
    }
    String::from_str(s.substring_char(k, n))
}

/// `s` without its trailing slashes.
pub open spec fn trim_trailing_slashes(s: Seq<char>) -> Seq<char>
    decreases s.len(),
{
    if s.len() > 0 && s.last() == '/' {
        trim_trailing_slashes(s.drop_last())
    } else {
        s
    }
}

/// `s` without its trailing slashes.
pub fn trim_end_slashes(s: &str) -> (r: String)
    ensures
        r@ == trim_trailing_slashes(s@),
{
    let n = s.unicode_len();
    let mut k: usize = n;
    proof {
        assert(s@.subrange(0, n as int) =~= s@);
    }
    while k > 0 && s.get_char(k - 1) == '/'
        invariant
            n == s@.len(),
            k <= n,
            trim_trailing_slashes(s@) == trim_trailing_slashes(s@.subrange(0, k as int)),
        decreases k,
    {
        proof {
            assert(s@.subrange(0, k as int).drop_last() =~= s@.subrange(0, k - 1));
        }
        k = k - 1;
    }
    proof {
        assert(s@.subrange(0, n as int) =~= s@);
    }
    String::from_str(s.substring_char(0, k))
}

/// The decimal digit for `d`.
pub open spec fn digit_char(d: nat) -> char {
    if d == 0 {
        '0'
    } else if d == 1 {
        '1'
    } else if d == 2 {
        '2'
    } else if d == 3 {
        '3'
    } else if d == 4 {
        '4'
    } else if d == 5 {
        '5'
    } else if d == 6 {
        '6'
    } else if d == 7 {
        '7'
    } else if d == 8 {
        '8'
    } else {
        '9'
    }
}

/// The decimal numeral of `n`, without leading zeros.
pub open spec fn decimal(n: nat) -> Seq<char>
    decreases n,
{
    if n < 10 {
        seq![digit_char(n)]
    } else {
        decimal(n / 10).push(digit_char(n % 10))
    }
}

fn digit_string(d: u64) -> (s: String)
    requires
        d < 10,
    ensures
        s@ == seq![digit_char(d as nat)],
{
    let s = if d == 0 {
        String::from_str("0")
    } else if d == 1 {
        String::from_str("1")
    } else if d == 2 {
        String::from_str("2")
    } else if d == 3 {
        String::from_str("3")
    } else if d == 4 {
        String::from_str("4")
    } else if d == 5 {
        String::from_str("5")
    } else if d == 6 {
        String::from_str("6")
    } else if d == 7 {
        String::from_str("7")
    } else if d == 8 {
        String::from_str("8")
    } else {
        String::from_str("9")
    };
    proof {
        reveal_strlit("0");
        reveal_strlit("1");
        reveal_strlit("2");
        reveal_strlit("3");
        reveal_strlit("4");
        reveal_strlit("5");
        reveal_strlit("6");
        reveal_strlit("7");
        reveal_strlit("8");
        reveal_strlit("9");
        assert(s@ =~= seq![digit_char(d as nat)]);
    }
    s
}

/// The decimal numeral of `n`.
pub fn decimal_string(n: u64) -> (s: String)
    ensures
        s@ == decimal(n as nat),
    decreases n,
{
    if n < 10 {
        digit_string(n)
    } else {
        let head = decimal_string(n / 10);
        let tail = digit_string(n % 10);
        let r = head.concat(tail.as_str());
        proof {
            assert(r@ =~= decimal(n as nat));
        }
        r
    }
}

} // verus!
