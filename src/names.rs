use vstd::prelude::*;

verus! {

/// The suffix that marks a prebuilt binary package.
pub open spec fn bin_suffix() -> Seq<char> {
    seq!['-', 'b', 'i', 'n']
}

/// The suffix that marks a package built from a git checkout.
pub open spec fn git_suffix() -> Seq<char> {
    seq!['-', 'g', 'i', 't']
}

/// Whether `s` ends with `suffix`.
pub open spec fn has_suffix(s: Seq<char>, suffix: Seq<char>) -> bool {
    s.len() >= suffix.len() && s.subrange(s.len() - suffix.len(), s.len() as int) == suffix
}

/// `s` with every hyphen turned into an underscore.
pub open spec fn hyphens_to_underscores(s: Seq<char>) -> Seq<char> {
    s.map_values(|c: char| if c == '-' { '_' } else { c })
}

/// `k` is the position of the first hyphen of `s`.
pub open spec fn is_first_hyphen(s: Seq<char>, k: int) -> bool {
    &&& 0 <= k < s.len()
    &&& s[k] == '-'
    &&& forall|j: int| 0 <= j < k ==> s[j] != '-'
}

/// The part of `s` before its first hyphen (all of `s` when it has none).
pub open spec fn before_first_hyphen(s: Seq<char>) -> Seq<char> {
    if s.contains('-') {
        s.take(choose|k: int| is_first_hyphen(s, k))
    } else {
        s
    }
}

/// `s` with `suffix` removed from its end as many times as it occurs there.
pub open spec fn trim_suffix_repeated(s: Seq<char>, suffix: Seq<char>) -> Seq<char>
    decreases s.len(),
{
    if suffix.len() > 0 && has_suffix(s, suffix) {
        trim_suffix_repeated(s.subrange(0, s.len() - suffix.len()), suffix)
    } else {
        s
    }
}

/// The names tried for a package after its own name, in order: for a name with
/// a hyphen, the name with underscores and the part before the first hyphen;
/// for a name ending in `-bin` or `-git`, the name with trailing `-bin`s and
/// then trailing `-git`s removed.
pub open spec fn name_variants(s: Seq<char>) -> Seq<Seq<char>> {
    let hyphen_forms = if s.contains('-') {
        seq![hyphens_to_underscores(s), before_first_hyphen(s)]
    } else {
        Seq::empty()
    };
    let suffix_forms = if has_suffix(s, bin_suffix()) || has_suffix(s, git_suffix()) {
        seq![trim_suffix_repeated(trim_suffix_repeated(s, bin_suffix()), git_suffix())]
    } else {
        Seq::empty()
    };
    hyphen_forms + suffix_forms
}

/// Tests whether `s` ends with `suffix`, character by character.
pub fn ends_with(s: &str, suffix: &str) -> (r: bool)
    ensures
        r == has_suffix(s@, suffix@),
{
    let n = s.unicode_len();
    let m = suffix.unicode_len();
    if n < m {
        return false;
    }
    let off = n - m;
    let mut i: usize = 0;
    while i < m
        invariant
            n == s@.len(),
            m == suffix@.len(),
            off == n - m,
            i <= m,
            forall|j: int| 0 <= j < i ==> s@[off + j] == suffix@[j],
        decreases m - i,
    {
        if s.get_char(off + i) != suffix.get_char(i) {
            assert(s@.subrange(off as int, n as int)[i as int] != suffix@[i as int]);
            return false;
        }
        i = i + 1;
    }
    assert(s@.subrange(off as int, n as int) =~= suffix@);
    true
}

/// The position of the first hyphen of `s`, if it has one.
pub fn first_hyphen(s: &str) -> (r: Option<usize>)
    ensures
        match r {
            Some(k) => is_first_hyphen(s@, k as int),
            None => !s@.contains('-'),
        },
{
    let n = s.unicode_len();
    let mut i: usize = 0;
    while i < n
        invariant
            n == s@.len(),
            i <= n,
            forall|j: int| 0 <= j < i ==> s@[j] != '-',
        decreases n - i,
    {
        if s.get_char(i) == '-' {
            return Some(i);
        }
        i = i + 1;
    }
    None
}

/// The part of `s` before its first hyphen.
pub fn prefix_before_hyphen(s: &str) -> (r: String)
    ensures
        r@ == before_first_hyphen(s@),
{
    match first_hyphen(s) {
        Some(k) => {
            let ghost c = choose|c: int| is_first_hyphen(s@, c);
            assert(s@[k as int] == '-');
            assert(s@.contains('-'));
            assert(is_first_hyphen(s@, c));
            assert(c == k) by {
                if c < k {
                    assert(s@[c] != '-');
                } else if c > k {
                    assert(s@[k as int] != '-');
                }
            }
            String::from_str(s.substring_char(0, k))
        },
        None => String::from_str(s),
    }
}

/// `s` with every hyphen turned into an underscore.
pub fn replace_hyphens(s: &str) -> (r: String)
    ensures
        r@ == hyphens_to_underscores(s@),
{
    let n = s.unicode_len();
    let mut out = String::new();
    let mut i: usize = 0;
    proof {
        reveal_strlit("_");
    }
    while i < n
        invariant
            n == s@.len(),
            i <= n,
            out@ == hyphens_to_underscores(s@.take(i as int)),
            "_"@ == seq!['_'],
        decreases n - i,
    {
        let c = s.get_char(i);
        if c == '-' {
            out.append("_");
        } else {
            out.append(s.substring_char(i, i + 1));
        }
        assert(s@.take(i + 1) =~= s@.take(i as int).push(c));
        assert(hyphens_to_underscores(s@.take(i + 1)) =~= hyphens_to_underscores(
            s@.take(i as int),
        ).push(if c == '-' { '_' } else { c }));
        i = i + 1;
    }
    assert(s@.take(n as int) =~= s@);
    out
}

/// `s` with `suffix` removed from its end as many times as it occurs there.
pub fn trim_suffix(s: &str, suffix: &str) -> (r: String)
    requires
        suffix@.len() > 0,
    ensures
        r@ == trim_suffix_repeated(s@, suffix@),
{
    let m = suffix.unicode_len();
    let mut end = s.unicode_len();
    let mut cur = s.substring_char(0, end);
    assert(s@.subrange(0, end as int) =~= s@);
    while ends_with(cur, suffix)
        invariant
            m == suffix@.len(),
            m > 0,
            end <= s@.len(),
            cur@ == s@.subrange(0, end as int),
            trim_suffix_repeated(cur@, suffix@) == trim_suffix_repeated(s@, suffix@),
        decreases end,
    {
        end = end - m;
        cur = s.substring_char(0, end);
        assert(cur@ =~= s@.subrange(0, end + m).subrange(0, end as int));
    }
    String::from_str(cur)
}

} // verus!
