use vstd::prelude::*;

verus! {

// A client URL's path component names the namespace. It is normalized by
// splitting on '/', dropping empty segments, and rejoining with a leading
// '/'; the URL's own path is then rewritten to the mount point and the
// normalized namespace travels as the `namespace` query parameter.

/// The index of the first '/' in `s`, or `s.len()` when there is none.
pub open spec fn first_slash(s: Seq<char>) -> int
    decreases s.len(),
{
    if s.len() == 0 {
        0
    } else if s[0] == '/' {
        0
    } else {
        1 + first_slash(s.skip(1))
    }
}

/// The non-empty '/'-separated segments of `s`, each prefixed with '/',
/// concatenated in order.
pub open spec fn join_nonempty_segments(s: Seq<char>) -> Seq<char>
    decreases s.len(),
    via join_nonempty_segments_decreases
{
    if s.len() == 0 {
        Seq::empty()
    } else {
        let k = first_slash(s);
        let seg = s.take(k);
        let rest = if k == s.len() {
            Seq::<char>::empty()
        } else {
            s.skip(k + 1)
        };
        if seg.len() == 0 {
            join_nonempty_segments(rest)
        } else {
            seq!['/'] + seg + join_nonempty_segments(rest)
        }
    }
}

/// A normalized path: the joined non-empty segments, or just "/" when
/// there are none.
pub open spec fn normalized_path(s: Seq<char>) -> Seq<char> {
    let joined = join_nonempty_segments(s);
    if joined.len() == 0 {
        seq!['/']
    } else {
        joined
    }
}

#[via_fn]
proof fn join_nonempty_segments_decreases(s: Seq<char>) {
    lemma_first_slash_bounds(s);
}

/// `first_slash` stays within the sequence.
proof fn lemma_first_slash_bounds(s: Seq<char>)
    ensures
        0 <= first_slash(s) <= s.len(),
    decreases s.len(),
{
    if s.len() > 0 && s[0] != '/' {
        lemma_first_slash_bounds(s.skip(1));
    }
}

/// `first_slash` is the position of the first '/', characterized by a
/// slash-free prefix.
proof fn lemma_first_slash_at(s: Seq<char>, k: int)
    requires
        0 <= k <= s.len(),
        forall|j: int| 0 <= j < k ==> s[j] != '/',
        k < s.len() ==> s[k] == '/',
    ensures
        first_slash(s) == k,
    decreases s.len(),
{
    if s.len() == 0 {
    } else if s[0] == '/' {
        assert(k == 0);
    } else {
        assert(k >= 1);
        let t = s.skip(1);
        assert forall|j: int| 0 <= j < k - 1 implies t[j] != '/' by {
            assert(t[j] == s[j + 1]);
        }
        if k - 1 < t.len() {
            assert(t[k - 1] == s[k]);
        }
        lemma_first_slash_at(t, k - 1);
    }
}

/// The position of the first '/' of the path, counted in characters.
fn find_first_slash(path: &str) -> (r: usize)
    ensures
        r == first_slash(path@),
{
    let n = path.unicode_len();
    let mut k: usize = 0;
    while k < n && path.get_char(k) != '/'
        invariant
            k <= n,
            n == path@.len(),
            forall|j: int| 0 <= j < k ==> path@[j] != '/',
        decreases n - k,
    {
        k += 1;
    }
    proof {
        lemma_first_slash_at(path@, k as int);
    }
    k
}

/// Concatenates the non-empty segments of `path`, each with a leading
/// '/'.
fn join_segments(path: &str) -> (r: String)
    ensures
        r@ == join_nonempty_segments(path@),
    decreases path@.len(),
{
    let n = path.unicode_len();
    if n == 0 {
        return String::new();
    }
    let k = find_first_slash(path);
    proof {
        lemma_first_slash_bounds(path@);
    }
    let rest: &str = if k == n {
        path.substring_char(n, n)
    } else {
        path.substring_char(k + 1, n)
    };
    proof {
        if k == n {
            assert(rest@ =~= Seq::<char>::empty());
        } else {
            assert(rest@ =~= path@.skip(k + 1));
        }
    }
    let tail = join_segments(rest);
    if k == 0 {
        proof {
            assert(path@.take(0) =~= Seq::<char>::empty());
        }
        tail
    } else {
        let seg = path.substring_char(0, k);
        let mut out = "/".to_owned();
        out.append(seg);
        out.append(tail.as_str());
        proof {
            reveal_strlit("/");
            assert(seg@ =~= path@.take(k as int));
            assert(out@ =~= seq!['/'] + path@.take(k as int) + tail@);
        }
        out
    }
}

/// Normalizes a path: split on '/', drop empty segments, rejoin with a
/// leading '/'. An empty or all-slash path becomes "/".
pub fn normalize_request_path(path: &str) -> (r: String)
    ensures
        r@ == normalized_path(path@),
{
    let joined = join_segments(path);
    if joined.as_str().unicode_len() == 0 {
        let root = "/".to_owned();
        proof {
            reveal_strlit("/");
            assert(root@ =~= seq!['/']);
        }
        root
    } else {
        joined
    }
}

/// The query pairs of `s` whose key is not "namespace", in order.
pub open spec fn non_namespace_pairs(s: Seq<(String, String)>) -> Seq<(String, String)>
    decreases s.len(),
{
    if s.len() == 0 {
        Seq::empty()
    } else {
        non_namespace_pairs(s.drop_last()) + (if s.last().0@ == "namespace"@ {
            Seq::<(String, String)>::empty()
        } else {
            seq![s.last()]
        })
    }
}

/// Rewrites a URL's query pairs for the websocket handshake: any existing
/// `namespace` keys are dropped and a single `namespace` pair carrying the
/// normalized namespace is appended.
pub fn rewrite_query_pairs(pairs: &Vec<(String, String)>, namespace: &str) -> (r: Vec<
    (String, String),
>)
    ensures
        r@.len() == non_namespace_pairs(pairs@).len() + 1,
        r@.take(r@.len() - 1) == non_namespace_pairs(pairs@),
        r@.last().0@ == "namespace"@,
        r@.last().1@ == namespace@,
{
    let mut out: Vec<(String, String)> = Vec::new();
    let n = pairs.len();
    let mut i: usize = 0;
    while i < n
        invariant
            i <= n,
            n == pairs@.len(),
            out@ == non_namespace_pairs(pairs@.take(i as int)),
        decreases n - i,
    {
        proof {
            assert(pairs@.take(i + 1).drop_last() =~= pairs@.take(i as int));
            assert(pairs@.take(i + 1).last() == pairs@[i as int]);
        }
        if !pairs[i].0.as_str().eq("namespace") {
            let pair = (pairs[i].0.clone(), pairs[i].1.clone());
            out.push(pair);
        }
        i += 1;
    }
    proof {
        assert(pairs@.take(n as int) =~= pairs@);
    }
    let ns_pair = ("namespace".to_owned(), namespace.to_owned());
    out.push(ns_pair);
    proof {
        assert(out@.take(out@.len() - 1) =~= non_namespace_pairs(pairs@));
    }
    out
}

/// Whether a URL scheme is one the client accepts.
pub fn valid_ws_scheme(scheme: &str) -> (r: bool)
    ensures
        r == (scheme@ == "ws"@ || scheme@ == "wss"@),
{
    scheme.eq("ws") || scheme.eq("wss")
}

} // verus!
