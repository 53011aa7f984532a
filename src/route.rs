//! Reading a request's path: which operation it asks for, and the timer name
//! that it carries.
use vstd::prelude::*;

verus! {

/// `p` stands in `s` at index `k`.
pub open spec fn occurs_at(s: Seq<char>, p: Seq<char>, k: int) -> bool {
    0 <= k && k + p.len() <= s.len() && s.subrange(k, k + p.len()) == p
}

/// The first index at or after `k` where `p` stands in `s`.
pub open spec fn find_from(s: Seq<char>, p: Seq<char>, k: int) -> Option<int>
    decreases s.len() + 1 - k,
{
    if k < 0 || k + p.len() > s.len() {
        None
    } else if occurs_at(s, p, k) {
        Some(k)
    } else {
        find_from(s, p, k + 1)
    }
}

/// `s` begins with `p`.
pub open spec fn has_prefix(s: Seq<char>, p: Seq<char>) -> bool {
    occurs_at(s, p, 0)
}

/// The key that introduces a timer name.
pub open spec fn name_key() -> Seq<char> {
    seq!['n', 'a', 'm', 'e', '=']
}

/// The name a path carries: everything after its first `name=`, taken
/// verbatim to the end of the path (neither `&` nor a further `name=` ends
/// it).
pub open spec fn name_param(url: Seq<char>) -> Option<Seq<char>> {
    match find_from(url, name_key(), 0) {
        None => None,
        Some(i) => Some(url.subrange(i + name_key().len(), url.len() as int)),
    }
}

/// The characters of `s`, in order.
pub fn chars_of(s: &str) -> (r: Vec<char>)
    ensures
        r@ == s@,
{
    let mut v: Vec<char> = Vec::new();
    for c in it: s.chars()
        invariant
            v@ == it.seq().take(it.index() as int),
    {
        v.push(c);
        assert(v@ =~= it.seq().take(it.index() + 1));
    }
    assert(v@ =~= s@);
    v
}

/// Whether `p` stands in `s` at index `k`.
fn occurs_at_exec(s: &Vec<char>, p: &Vec<char>, k: usize) -> (r: bool)
    ensures
        r == occurs_at(s@, p@, k as int),
{
    if k > s.len() || p.len() > s.len() - k {
        return false;
    }
    let mut j: usize = 0;
    while j < p.len()
        invariant
            k + p.len() <= s.len(),
            j <= p.len(),
            forall|t: int| 0 <= t < j ==> s@[k + t] == p@[t],
        decreases p.len() - j,
    {
        if s[k + j] != p[j] {
            assert(s@.subrange(k as int, k + p.len())[j as int] != p@[j as int]);
            return false;
        }
        j = j + 1;
    }
    assert(s@.subrange(k as int, k + p.len()) =~= p@);
    true
}

/// The first index at or after `k` where `p` stands in `s`.
fn find_from_exec(s: &Vec<char>, p: &Vec<char>, k: usize) -> (r: Option<usize>)
    ensures
        match r {
            Some(i) => find_from(s@, p@, k as int) == Some(i as int),
            None => find_from(s@, p@, k as int) is None,
        },
{
    let mut i: usize = k;
    while i <= s.len() && p.len() <= s.len() - i
        invariant
            k <= i,
            find_from(s@, p@, k as int) == find_from(s@, p@, i as int),
        decreases s.len() + 1 - i,
    {
        if occurs_at_exec(s, p, i) {
            return Some(i);
        }
        if p.len() == 0 {
            assert(s@.subrange(i as int, i as int) =~= p@);
        }
        i = i + 1;
    }
    None
}

/// The characters of `s` from `lo` up to `hi`.
fn slice_of(s: &Vec<char>, lo: usize, hi: usize) -> (r: Vec<char>)
    requires
        lo <= hi <= s.len(),
    ensures
        r@ == s@.subrange(lo as int, hi as int),
{
    let mut v: Vec<char> = Vec::new();
    let mut i: usize = lo;
    while i < hi
        invariant
            lo <= i <= hi <= s.len(),
            v@ == s@.subrange(lo as int, i as int),
        decreases hi - i,
    {
        v.push(s[i]);
        i = i + 1;
        assert(v@ =~= s@.subrange(lo as int, i as int));
    }
    v
}

fn name_key_chars() -> (r: Vec<char>)
    ensures
        r@ == name_key(),
{
    let r: Vec<char> = vec!['n', 'a', 'm', 'e', '='];
    assert(r@ =~= name_key());
    r
}

/// The name carried by the path `url`, given as characters.
fn name_in(url: &Vec<char>) -> (r: Option<Vec<char>>)
    ensures
        match r {
            Some(n) => name_param(url@) == Some(n@),
            None => name_param(url@) is None,
        },
{
    let key = name_key_chars();
    assert(key@.len() == 5);
    match find_from_exec(url, &key, 0) {
        None => None,
        Some(i) => {
            proof {
                find_from_in_bounds(url@, key@, 0);
                assert(occurs_at(url@, key@, i as int));
                assert(i + key@.len() <= url@.len());
                assert(i + 5 <= url.len());
            }
            Some(slice_of(url, i + 5, url.len()))
        },
    }
}

/// The name carried by the path `url`: everything after its first `name=`,
/// to the end of the path. `None` where `url` holds no `name=`.
pub fn extract_name(url: &str) -> (r: Option<Vec<char>>)
    ensures
        match r {
            Some(n) => name_param(url@) == Some(n@),
            None => name_param(url@) is None,
        },
{
    let chars = chars_of(url);
    name_in(&chars)
}

/// The path prefix of a clock reading.
pub open spec fn now_path() -> Seq<char> {
    seq!['/', 'n', 'o', 'w']
}

/// The path prefix of a timer start.
pub open spec fn start_path() -> Seq<char> {
    seq!['/', 's', 't', 'a', 'r', 't']
}

/// The path prefix of a timer stop.
pub open spec fn stop_path() -> Seq<char> {
    seq!['/', 's', 't', 'o', 'p']
}

/// What a request asks for, with the timer name as characters.
pub enum RequestModel {
    Now,
    Start(Option<Seq<char>>),
    Stop(Option<Seq<char>>),
    Unknown,
}

/// The operation a request path asks for. The prefixes are tried in the
/// order clock, start, stop.
pub open spec fn request_of(url: Seq<char>) -> RequestModel {
    if has_prefix(url, now_path()) {
        RequestModel::Now
    } else if has_prefix(url, start_path()) {
        RequestModel::Start(name_param(url))
    } else if has_prefix(url, stop_path()) {
        RequestModel::Stop(name_param(url))
    } else {
        RequestModel::Unknown
    }
}

pub open spec fn opt_chars(n: Option<Vec<char>>) -> Option<Seq<char>> {
    match n {
        Some(v) => Some(v@),
        None => None,
    }
}

/// A request, as read from its path: read the clock, start or stop a timer
/// (with the name, if the path carries one), or none of these.
pub enum Request {
    Now,
    Start(Option<Vec<char>>),
    Stop(Option<Vec<char>>),
    Unknown,
}

impl View for Request {
    type V = RequestModel;

    open spec fn view(&self) -> RequestModel {
        match *self {
            Request::Now => RequestModel::Now,
            Request::Start(n) => RequestModel::Start(opt_chars(n)),
            Request::Stop(n) => RequestModel::Stop(opt_chars(n)),
            Request::Unknown => RequestModel::Unknown,
        }
    }
}

/// Reads the operation that the path `url` asks for.
pub fn parse_request(url: &str) -> (r: Request)
    ensures
        r@ == request_of(url@),
{
    let chars = chars_of(url);
    let now: Vec<char> = vec!['/', 'n', 'o', 'w'];
    let start: Vec<char> = vec!['/', 's', 't', 'a', 'r', 't'];
    let stop: Vec<char> = vec!['/', 's', 't', 'o', 'p'];
    assert(now@ =~= now_path());
    assert(start@ =~= start_path());
    assert(stop@ =~= stop_path());
    if occurs_at_exec(&chars, &now, 0) {
        Request::Now
    } else if occurs_at_exec(&chars, &start, 0) {
        Request::Start(name_in(&chars))
    } else if occurs_at_exec(&chars, &stop, 0) {
        Request::Stop(name_in(&chars))
    } else {
        Request::Unknown
    }
}

/// Where `find_from` finds `p`, `p` stands there in full.
proof fn find_from_in_bounds(s: Seq<char>, p: Seq<char>, k: int)
    ensures
        match find_from(s, p, k) {
            Some(i) => k <= i && occurs_at(s, p, i),
            None => true,
        },
    decreases s.len() + 1 - k,
{
    if k < 0 || k + p.len() > s.len() {
    } else if occurs_at(s, p, k) {
    } else {
        find_from_in_bounds(s, p, k + 1);
    }
}

} // verus!
