//! The immutable environment snapshot and the header-name convention that
//! maps environment variables to request headers and back.
//!
//! An incoming request description names its headers as environment variables
//! with a fixed prefix, word separators written as underscores. Decoding
//! strips the prefix and turns underscores into hyphens; re-encoding does the
//! reverse. Both directions preserve values and relative order.

use vstd::prelude::*;
use crate::bytes::bytes_eq;

verus! {

/// An immutable, ordered key/value view of the process environment, captured
/// once per request. Later environment mutation never affects an in-flight
/// decode: the snapshot owns independent copies.
pub struct EnvironmentSnapshot {
    pub vars: Vec<(Vec<u8>, Vec<u8>)>,
}

impl View for EnvironmentSnapshot {
    type V = Seq<(Seq<u8>, Seq<u8>)>;

    open spec fn view(&self) -> Seq<(Seq<u8>, Seq<u8>)> {
        self.vars@.map_values(|p: (Vec<u8>, Vec<u8>)| (p.0@, p.1@))
    }
}

/// The value of the first pair named `name`, if any: what lookup returns.
/// Names compare case-sensitively.
pub open spec fn spec_lookup(env: Seq<(Seq<u8>, Seq<u8>)>, name: Seq<u8>) -> Option<Seq<u8>>
    decreases env.len(),
{
    if env.len() == 0 {
        None
    } else if env.first().0 == name {
        Some(env.first().1)
    } else {
        spec_lookup(env.drop_first(), name)
    }
}

/// When the first match stands at position `i`, lookup returns its value.
proof fn lemma_lookup_first_match(env: Seq<(Seq<u8>, Seq<u8>)>, name: Seq<u8>, i: int)
    requires
        0 <= i < env.len(),
        forall|j: int| 0 <= j < i ==> (#[trigger] env[j]).0 != name,
        env[i].0 == name,
    ensures
        spec_lookup(env, name) == Some(env[i].1),
    decreases i,
{
    if i > 0 {
        lemma_lookup_first_match(env.drop_first(), name, i - 1);
    }
}

/// When nothing matches, lookup returns `None`.
proof fn lemma_lookup_no_match(env: Seq<(Seq<u8>, Seq<u8>)>, name: Seq<u8>)
    requires
        forall|j: int| 0 <= j < env.len() ==> (#[trigger] env[j]).0 != name,
    ensures
        spec_lookup(env, name) is None,
    decreases env.len(),
{
    if env.len() > 0 {
        lemma_lookup_no_match(env.drop_first(), name);
    }
}

impl EnvironmentSnapshot {
    /// Builds a snapshot from already-captured pairs, order preserved.
    pub fn new(vars: Vec<(Vec<u8>, Vec<u8>)>) -> (r: EnvironmentSnapshot)
        ensures
            r@ == vars@.map_values(|p: (Vec<u8>, Vec<u8>)| (p.0@, p.1@)),
    {
        EnvironmentSnapshot { vars }
    }

    /// The value of the first variable named `name`, as [`spec_lookup`] says.
    pub fn lookup<'a>(&'a self, name: &[u8]) -> (r: Option<&'a Vec<u8>>)
        ensures
            match r {
                Some(v) => spec_lookup(self@, name@) == Some(v@),
                None => spec_lookup(self@, name@) is None,
            },
    {
        let mut i: usize = 0;
        while i < self.vars.len()
            invariant
                i <= self.vars@.len(),
                forall|j: int| 0 <= j < i ==> (#[trigger] self@[j]).0 != name@,
            decreases self.vars@.len() - i,
        {
            if bytes_eq(self.vars[i].0.as_slice(), name) {
                proof {
                    lemma_lookup_first_match(self@, name@, i as int);
                }
                return Some(&self.vars[i].1);
            }
            i = i + 1;
        }
        proof {
            lemma_lookup_no_match(self@, name@);
        }
        None
    }
}

/// The bytes of the header-carrying variable prefix, `HTTP_`.
pub open spec fn spec_http_prefix() -> Seq<u8> {
    seq![72u8, 84u8, 84u8, 80u8, 95u8]
}

/// Whether an environment variable name carries the recognized header prefix.
pub open spec fn has_http_prefix(name: Seq<u8>) -> bool {
    name.len() >= 5 && name.take(5) == spec_http_prefix()
}

/// The header name an environment variable name stands for: the prefix
/// stripped, underscores turned to hyphens.
pub open spec fn spec_header_name_of_env(name: Seq<u8>) -> Seq<u8> {
    name.skip(5).map_values(
        |b: u8|
            if b == 95 {
                45u8
            } else {
                b
            },
    )
}

/// The environment variable name a header name is written back as: hyphens
/// turned to underscores, the prefix put back.
pub open spec fn spec_env_name_of_header(name: Seq<u8>) -> Seq<u8> {
    spec_http_prefix() + name.map_values(
        |b: u8|
            if b == 45 {
                95u8
            } else {
                b
            },
    )
}

/// The header pairs a snapshot decodes to: each prefixed variable becomes one
/// header, translation order following environment enumeration order.
pub open spec fn spec_headers_from_env(env: Seq<(Seq<u8>, Seq<u8>)>) -> Seq<(Seq<u8>, Seq<u8>)> {
    env.filter_map(
        |p: (Seq<u8>, Seq<u8>)|
            if has_http_prefix(p.0) {
                Some((spec_header_name_of_env(p.0), p.1))
            } else {
                None::<(Seq<u8>, Seq<u8>)>
            },
    )
}

/// The environment pairs a header sequence is written back as.
pub open spec fn spec_env_pairs_from_headers(headers: Seq<(Seq<u8>, Seq<u8>)>) -> Seq<
    (Seq<u8>, Seq<u8>),
> {
    headers.map_values(|p: (Seq<u8>, Seq<u8>)| (spec_env_name_of_header(p.0), p.1))
}

/// Translates one prefixed environment variable name to a header name.
fn header_name_of_env(name: &[u8]) -> (r: Vec<u8>)
    requires
        name@.len() >= 5,
    ensures
        r@ == spec_header_name_of_env(name@),
{
    let mut r: Vec<u8> = Vec::new();
    let mut i: usize = 5;
    proof {
        assert(r@ =~= name@.skip(5).map_values(
            |b: u8|
                if b == 95 {
                    45u8
                } else {
                    b
                },
        ).take(0));
    }
    while i < name.len()
        invariant
            5 <= i <= name@.len(),
            r@ == spec_header_name_of_env(name@).take(i - 5),
        decreases name@.len() - i,
    {
        let b = name[i];
        if b == 95 {
            r.push(45);
        } else {
            r.push(b);
        }
        i = i + 1;
        proof {
            assert(r@ =~= spec_header_name_of_env(name@).take(i - 5));
        }
    }
    proof {
        assert(spec_header_name_of_env(name@).take(name@.len() - 5) =~= spec_header_name_of_env(
            name@,
        ));
    }
    r
}

/// Translates one header name back to its environment variable name.
pub fn env_name_of_header(name: &[u8]) -> (r: Vec<u8>)
    ensures
        r@ == spec_env_name_of_header(name@),
{
    let mut r: Vec<u8> = Vec::new();
    r.push(72);
    r.push(84);
    r.push(84);
    r.push(80);
    r.push(95);
    let mut i: usize = 0;
    proof {
        assert(r@ =~= spec_env_name_of_header(name@).take(5));
    }
    while i < name.len()
        invariant
            i <= name@.len(),
            r@ == spec_env_name_of_header(name@).take(5 + i),
        decreases name@.len() - i,
    {
        let b = name[i];
        if b == 45 {
            r.push(95);
        } else {
            r.push(b);
        }
        i = i + 1;
        proof {
            assert(r@ =~= spec_env_name_of_header(name@).take(5 + i));
        }
    }
    proof {
        assert(spec_env_name_of_header(name@).take(5 + name@.len() as int) =~= spec_env_name_of_header(
            name@,
        ));
    }
    r
}

/// Decodes a snapshot's prefixed variables into the ordered header sequence,
/// as [`spec_headers_from_env`] says: one header per prefixed variable,
/// relative order preserved, values copied verbatim.
pub fn headers_from_env(env: &EnvironmentSnapshot) -> (r: Vec<(Vec<u8>, Vec<u8>)>)
    ensures
        r@.map_values(|p: (Vec<u8>, Vec<u8>)| (p.0@, p.1@)) == spec_headers_from_env(env@),
{
    let ghost f = |p: (Seq<u8>, Seq<u8>)|
        if has_http_prefix(p.0) {
            Some((spec_header_name_of_env(p.0), p.1))
        } else {
            None::<(Seq<u8>, Seq<u8>)>
        };
    let mut r: Vec<(Vec<u8>, Vec<u8>)> = Vec::new();
    let mut i: usize = 0;
    proof {
        assert(env@.take(0).filter_map(f) =~= Seq::<(Seq<u8>, Seq<u8>)>::empty());
        assert(r@.map_values(|p: (Vec<u8>, Vec<u8>)| (p.0@, p.1@)) =~= Seq::<
            (Seq<u8>, Seq<u8>),
        >::empty());
    }
    while i < env.vars.len()
        invariant
            i <= env.vars@.len(),
            env@.len() == env.vars@.len(),
            r@.map_values(|p: (Vec<u8>, Vec<u8>)| (p.0@, p.1@)) == env@.take(i as int).filter_map(
                f,
            ),
            f == (|p: (Seq<u8>, Seq<u8>)|
            if has_http_prefix(p.0) {
                Some((spec_header_name_of_env(p.0), p.1))
            } else {
                None::<(Seq<u8>, Seq<u8>)>
            }),
        decreases env.vars@.len() - i,
    {
        let name: &Vec<u8> = &env.vars[i].0;
        let prefix: [u8; 5] = [72, 84, 84, 80, 95];
        proof {
            assert(prefix@ =~= spec_http_prefix());
        }
        let ghost prev = r@.map_values(|p: (Vec<u8>, Vec<u8>)| (p.0@, p.1@));
        if crate::bytes::starts_with(name.as_slice(), prefix.as_slice()) {
            let hname = header_name_of_env(name.as_slice());
            let hvalue = crate::bytes::copy_bytes(env.vars[i].1.as_slice());
            r.push((hname, hvalue));
            proof {
                assert(has_http_prefix(env@[i as int].0));
                assert(r@.map_values(|p: (Vec<u8>, Vec<u8>)| (p.0@, p.1@)) =~= prev.push(
                    (spec_header_name_of_env(env@[i as int].0), env@[i as int].1),
                ));
            }
        } else {
            proof {
                assert(!has_http_prefix(env@[i as int].0));
            }
        }
        i = i + 1;
        proof {
            assert(env@.take(i as int).drop_last() =~= env@.take(i - 1));
            assert(env@.take(i as int).last() == env@[i - 1]);
        }
    }
    proof {
        assert(env@.take(env@.len() as int) =~= env@);
    }
    r
}

/// Writes a header sequence back as environment pairs, as
/// [`spec_env_pairs_from_headers`] says.
pub fn env_pairs_from_headers(headers: &Vec<(Vec<u8>, Vec<u8>)>) -> (r: Vec<(Vec<u8>, Vec<u8>)>)
    ensures
        r@.map_values(|p: (Vec<u8>, Vec<u8>)| (p.0@, p.1@)) == spec_env_pairs_from_headers(
            headers@.map_values(|p: (Vec<u8>, Vec<u8>)| (p.0@, p.1@)),
        ),
{
    let ghost hs = headers@.map_values(|p: (Vec<u8>, Vec<u8>)| (p.0@, p.1@));
    let mut r: Vec<(Vec<u8>, Vec<u8>)> = Vec::new();
    let mut i: usize = 0;
    while i < headers.len()
        invariant
            i <= headers@.len(),
            hs == headers@.map_values(|p: (Vec<u8>, Vec<u8>)| (p.0@, p.1@)),
            hs.len() == headers@.len(),
            r@.map_values(|p: (Vec<u8>, Vec<u8>)| (p.0@, p.1@)) == spec_env_pairs_from_headers(
                hs.take(i as int),
            ),
        decreases headers@.len() - i,
    {
        let ghost prev = r@.map_values(|p: (Vec<u8>, Vec<u8>)| (p.0@, p.1@));
        let ename = env_name_of_header(headers[i].0.as_slice());
        let evalue = crate::bytes::copy_bytes(headers[i].1.as_slice());
        r.push((ename, evalue));
        i = i + 1;
        proof {
            assert(r@.map_values(|p: (Vec<u8>, Vec<u8>)| (p.0@, p.1@)) =~= prev.push(
                (spec_env_name_of_header(hs[i - 1].0), hs[i - 1].1),
            ));
            assert(spec_env_pairs_from_headers(hs.take(i as int)) =~= spec_env_pairs_from_headers(
                hs.take(i - 1),
            ).push((spec_env_name_of_header(hs[i - 1].0), hs[i - 1].1)));
        }
    }
    proof {
        assert(hs.take(hs.len() as int) =~= hs);
    }
    r
}

/// Round trip of the header convention: writing the decoded headers back
/// yields exactly the snapshot's prefixed pairs, names, values and relative
/// order all preserved. Holds whenever no prefixed variable name carries a
/// hyphen after its prefix, hyphens being what the translation writes
/// underscores as.
pub proof fn lemma_env_header_round_trip(env: Seq<(Seq<u8>, Seq<u8>)>)
    requires
        forall|i: int, j: int|
            0 <= i < env.len() && has_http_prefix(env[i].0) && 5 <= j < env[i].0.len()
                ==> #[trigger] env[i].0[j] != 45,
    ensures
        spec_env_pairs_from_headers(spec_headers_from_env(env)) == env.filter(
            |p: (Seq<u8>, Seq<u8>)| has_http_prefix(p.0),
        ),
    decreases env.len(),
{
    let f = |p: (Seq<u8>, Seq<u8>)|
        if has_http_prefix(p.0) {
            Some((spec_header_name_of_env(p.0), p.1))
        } else {
            None::<(Seq<u8>, Seq<u8>)>
        };
    let pred = |p: (Seq<u8>, Seq<u8>)| has_http_prefix(p.0);
    reveal_with_fuel(Seq::filter, 2);
    if env.len() == 0 {
        assert(spec_env_pairs_from_headers(spec_headers_from_env(env)) =~= env.filter(pred));
    } else {
        let init = env.drop_last();
        assert(forall|i: int, j: int|
            0 <= i < init.len() && has_http_prefix(init[i].0) && 5 <= j
                < init[i].0.len() ==> #[trigger] init[i].0[j] != 45) by {
            assert(forall|i: int| 0 <= i < init.len() ==> init[i] == env[i]);
        }
        lemma_env_header_round_trip(init);
        let last = env.last();
        if pred(last) {
            lemma_name_round_trip(last.0);
            assert(env.filter(pred) == init.filter(pred).push(last));
            assert(spec_headers_from_env(env) == spec_headers_from_env(init).push(
                (spec_header_name_of_env(last.0), last.1),
            ));
            assert(spec_env_pairs_from_headers(spec_headers_from_env(env))
                =~= spec_env_pairs_from_headers(spec_headers_from_env(init)).push(last));
        } else {
            assert(env.filter(pred) == init.filter(pred));
            assert(spec_headers_from_env(env) == spec_headers_from_env(init));
        }
    }
}

/// Round trip of one name: stripping the prefix and turning underscores to
/// hyphens, then undoing both, is the identity on a prefixed name whose
/// suffix carries no hyphen.
proof fn lemma_name_round_trip(name: Seq<u8>)
    requires
        has_http_prefix(name),
        forall|j: int| 5 <= j < name.len() ==> name[j] != 45,
    ensures
        spec_env_name_of_header(spec_header_name_of_env(name)) == name,
{
    let h = spec_header_name_of_env(name);
    let back = spec_env_name_of_header(h);
    assert forall|j: int| 0 <= j < name.len() implies back[j] == name[j] by {
        if j < 5 {
            assert(back[j] == spec_http_prefix()[j]);
            assert(name.take(5)[j] == name[j]);
        } else {
            assert(h[j - 5] == if name[j] == 95 {
                45u8
            } else {
                name[j]
            });
        }
    }
    assert(back =~= name);
}

} // verus!
