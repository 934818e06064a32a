use vstd::prelude::*;

verus! {

/// `p` occurs in `s` as a contiguous run.
pub open spec fn has_infix(s: Seq<char>, p: Seq<char>) -> bool {
    exists|k: int| 0 <= k && k + p.len() <= s.len() && #[trigger] s.subrange(k, k + p.len()) == p
}

/// `p` occurs in `s` at position `k`.
fn occurs_at(s: &str, p: &str, k: usize, n: usize, m: usize) -> (r: bool)
    requires
        n == s@.len(),
        m == p@.len(),
        k + m <= n,
    ensures
        r == (s@.subrange(k as int, k + p@.len()) == p@),
{
    let mut j: usize = 0;
    while j < m
        invariant
            m == p@.len(),
            n == s@.len(),
            k + m <= n,
            j <= m,
            forall|t: int| 0 <= t < j ==> s@[k + t] == p@[t],
        decreases m - j,
    {
        if s.get_char(k + j) != p.get_char(j) {
            assert(s@.subrange(k as int, k + m)[j as int] != p@[j as int]);
            return false;
        }
        j += 1;
    }
    assert(s@.subrange(k as int, k + m) =~= p@);
    true
}

/// `p` occurs in `s`.
pub fn contains_text(s: &str, p: &str) -> (r: bool)
    ensures
        r == has_infix(s@, p@),
{
    let n = s.unicode_len();
    let m = p.unicode_len();
    if m > n {
        return false;
    }
    let mut k: usize = 0;
    while k <= n - m
        invariant
            n == s@.len(),
            m == p@.len(),
            m <= n,
            k <= n - m,
            forall|t: int| 0 <= t < k ==> #[trigger] s@.subrange(t, t + m) != p@,
        decreases n - m + 1 - k,
    {
        if occurs_at(s, p, k, n, m) {
            return true;
        }
        if k == n - m {
            return false;
        }
        k += 1;
    }
    false
}

/// The name that the game client's processes carry.
pub open spec fn is_league_client_name(name: Seq<char>) -> bool {
    has_infix(name, "LeagueClient"@)
}

/// Some process of `names` is the game client's.
pub fn league_client_running(names: &Vec<String>) -> (r: bool)
    ensures
        r == exists|i: int| 0 <= i < names@.len() && is_league_client_name(#[trigger] names@[i]@),
{
    let mut i: usize = 0;
    while i < names.len()
        invariant
            i <= names@.len(),
            forall|t: int| 0 <= t < i ==> !is_league_client_name(#[trigger] names@[t]@),
        decreases names@.len() - i,
    {
        if contains_text(names[i].as_str(), "LeagueClient") {
            return true;
        }
        i += 1;
    }
    false
}

/// The page of the pregame lookup site for `players` in `region`.
pub fn porofessor_url(region: &str, players: &str) -> (r: String)
    ensures
        r@ == "https://porofessor.gg/pregame/"@ + region@ + "/"@ + players@,
{
    let mut url = String::from_str("https://porofessor.gg/pregame/");
    url.append(region);
    url.append("/");
    url.append(players);
    url
}

} // verus!
