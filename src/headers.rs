use vstd::prelude::*;

use crate::names::{
    connection_bytes, connection_name, keep_alive_bytes, keep_alive_name, proxy_authenticate_bytes,
    proxy_authenticate_name, proxy_authorization_bytes, proxy_authorization_name, te_bytes, te_name,
    trailer_bytes, trailer_name, transfer_encoding_bytes, transfer_encoding_name, upgrade_bytes,
    upgrade_name, user_agent_bytes, user_agent_name,
};

verus! {

/// One header field as it travels through the proxy: raw name and value bytes.
pub struct Header {
    pub name: Vec<u8>,
    pub value: Vec<u8>,
}

impl View for Header {
    type V = (Seq<u8>, Seq<u8>);

    open spec fn view(&self) -> (Seq<u8>, Seq<u8>) {
        (self.name@, self.value@)
    }
}

impl Header {
    pub fn new(name: Vec<u8>, value: Vec<u8>) -> (r: Header)
        ensures
            r@ == (name@, value@),
    {
        Header { name, value }
    }

    pub fn copy(&self) -> (r: Header)
        ensures
            r@ == self@,
    {
        Header { name: self.name.clone(), value: self.value.clone() }
    }
}

/// The header list seen as a sequence of (name, value) byte strings.
pub open spec fn view_all(h: Seq<Header>) -> Seq<(Seq<u8>, Seq<u8>)> {
    h.map_values(|x: Header| x@)
}

/// Which way a header list is travelling through the proxy.
#[derive(Clone, Copy, PartialEq, Eq, Debug, Structural)]
pub enum Direction {
    OutboundRequest,
    InboundResponse,
}

/// ASCII lower-casing of one byte.
pub open spec fn lower(c: u8) -> u8 {
    if 65 <= c <= 90 {
        (c + 32) as u8
    } else {
        c
    }
}

/// Header names compare without regard to ASCII case.
pub open spec fn same_name(a: Seq<u8>, b: Seq<u8>) -> bool {
    &&& a.len() == b.len()
    &&& forall|i: int| 0 <= i < a.len() ==> lower(#[trigger] a[i]) == lower(b[i])
}

/// Optional white space around list elements: space or horizontal tab.
pub open spec fn is_ows(c: u8) -> bool {
    c == 32 || c == 9
}

/// The end of the comma-separated list element that starts at `s`.
pub open spec fn seg_end(v: Seq<u8>, s: int) -> int
    decreases v.len() - s,
{
    if 0 <= s < v.len() && v[s] != 44 {
        seg_end(v, s + 1)
    } else {
        s
    }
}

/// The first position in `[a, e)` that is not white space, or `e`.
pub open spec fn trim_lo(v: Seq<u8>, a: int, e: int) -> int
    decreases e - a,
{
    if a < e && is_ows(v[a]) {
        trim_lo(v, a + 1, e)
    } else {
        a
    }
}

/// The end of `[a, b)` once trailing white space is cut off.
pub open spec fn trim_hi(v: Seq<u8>, a: int, b: int) -> int
    decreases b - a,
{
    if a < b && is_ows(v[b - 1]) {
        trim_hi(v, a, b - 1)
    } else {
        b
    }
}

/// The list element that starts at `s`, without surrounding white space.
pub open spec fn token_at(v: Seq<u8>, s: int) -> Seq<u8> {
    let e = seg_end(v, s);
    let a = trim_lo(v, s, e);
    v.subrange(a, trim_hi(v, a, e))
}

/// Position `s` starts an element of a comma-separated list.
pub open spec fn is_seg_start(v: Seq<u8>, s: int) -> bool {
    0 <= s <= v.len() && (s == 0 || v[s - 1] == 44)
}

/// The comma-separated value `v` names `name` as one of its elements.
pub open spec fn lists_name(v: Seq<u8>, name: Seq<u8>) -> bool {
    exists|s: int| is_seg_start(v, s) && same_name(#[trigger] token_at(v, s), name)
}

/// Some `Connection` header of `h` names `name`.
pub open spec fn nominated(h: Seq<(Seq<u8>, Seq<u8>)>, name: Seq<u8>) -> bool {
    exists|i: int|
        0 <= i < h.len() && same_name(#[trigger] h[i].0, connection_name()) && lists_name(
            h[i].1,
            name,
        )
}

/// The fixed hop-by-hop set.
pub open spec fn is_fixed_hop(name: Seq<u8>) -> bool {
    same_name(name, connection_name()) || same_name(name, keep_alive_name()) || same_name(
        name,
        proxy_authenticate_name(),
    ) || same_name(name, proxy_authorization_name()) || same_name(name, te_name())
        || same_name(name, trailer_name()) || same_name(name, transfer_encoding_name())
        || same_name(name, upgrade_name())
}

/// A header named `name` in the list `h` does not survive sanitizing in direction `dir`.
pub open spec fn dropped(h: Seq<(Seq<u8>, Seq<u8>)>, dir: Direction, name: Seq<u8>) -> bool {
    is_fixed_hop(name) || nominated(h, name) || (dir == Direction::OutboundRequest && same_name(
        name,
        user_agent_name(),
    ))
}

/// The headers of `rest` that survive sanitizing of the whole list `h`, in order.
pub open spec fn kept(
    h: Seq<(Seq<u8>, Seq<u8>)>,
    dir: Direction,
    rest: Seq<(Seq<u8>, Seq<u8>)>,
) -> Seq<(Seq<u8>, Seq<u8>)>
    decreases rest.len(),
{
    if rest.len() == 0 {
        seq![]
    } else {
        let r = kept(h, dir, rest.drop_last());
        if dropped(h, dir, rest.last().0) {
            r
        } else {
            r.push(rest.last())
        }
    }
}

/// The sanitized header list: hop-by-hop headers removed and, outbound, the
/// configured `User-Agent` put in place of any the caller sent.
pub open spec fn sanitized(h: Seq<(Seq<u8>, Seq<u8>)>, dir: Direction, ua: Seq<u8>) -> Seq<
    (Seq<u8>, Seq<u8>),
> {
    match dir {
        Direction::OutboundRequest => kept(h, dir, h).push((user_agent_name(), ua)),
        Direction::InboundResponse => kept(h, dir, h),
    }
}

/// Case-insensitive comparison of `v[a..b]` with `name`.
pub fn same_name_at(v: &[u8], a: usize, b: usize, name: &[u8]) -> (r: bool)
    requires
        a <= b <= v@.len(),
    ensures
        r == same_name(v@.subrange(a as int, b as int), name@),
{
    if b - a != name.len() {
        return false;
    }
    let mut i: usize = 0;
    while i < name.len()
        invariant
            a <= b <= v@.len(),
            b - a == name@.len(),
            i <= name@.len(),
            forall|k: int| 0 <= k < i ==> lower(#[trigger] v@[a + k]) == lower(name@[k]),
        decreases name@.len() - i,
    {
        let x = v[a + i];
        let y = name[i];
        let lx: u8 = if 65 <= x && x <= 90 { x + 32 } else { x };
        let ly: u8 = if 65 <= y && y <= 90 { y + 32 } else { y };
        if lx != ly {
            assert(lower(v@.subrange(a as int, b as int)[i as int]) != lower(name@[i as int]));
            return false;
        }
        i = i + 1;
    }
    assert forall|k: int| 0 <= k < v@.subrange(a as int, b as int).len() implies lower(
        #[trigger] v@.subrange(a as int, b as int)[k],
    ) == lower(name@[k]) by {
        assert(v@.subrange(a as int, b as int)[k] == v@[a + k]);
    }
    true
}

/// Case-insensitive comparison of two header names.
pub fn eq_ignore_case(a: &[u8], b: &[u8]) -> (r: bool)
    ensures
        r == same_name(a@, b@),
{
    let r = same_name_at(a, 0, a.len(), b);
    assert(a@.subrange(0, a@.len() as int) =~= a@);
    r
}

proof fn lemma_seg_end(v: Seq<u8>, s: int)
    requires
        0 <= s <= v.len(),
    ensures
        s <= seg_end(v, s) <= v.len(),
        forall|k: int| s <= k < seg_end(v, s) ==> v[k] != 44,
        seg_end(v, s) == v.len() || v[seg_end(v, s)] == 44,
    decreases v.len() - s,
{
    if s < v.len() && v[s] != 44 {
        lemma_seg_end(v, s + 1);
    }
}

/// Whether the comma-separated value `v` names `name` among its elements.
pub fn lists_name_exec(v: &[u8], name: &[u8]) -> (r: bool)
    ensures
        r == lists_name(v@, name@),
{
    let n = v.len();
    let mut s: usize = 0;
    loop
        invariant
            n == v@.len(),
            is_seg_start(v@, s as int),
            forall|t: int|
                0 <= t < s && is_seg_start(v@, t) ==> !same_name(
                    #[trigger] token_at(v@, t),
                    name@,
                ),
        decreases n - s,
    {
        proof {
            lemma_seg_end(v@, s as int);
        }
        let mut e: usize = s;
        while e < n && v[e] != 44
            invariant
                s <= e <= n,
                n == v@.len(),
                seg_end(v@, e as int) == seg_end(v@, s as int),
            decreases n - e,
        {
            e = e + 1;
        }
        let mut a: usize = s;
        while a < e && (v[a] == 32 || v[a] == 9)
            invariant
                s <= a <= e <= n,
                n == v@.len(),
                trim_lo(v@, a as int, e as int) == trim_lo(v@, s as int, e as int),
            decreases e - a,
        {
            a = a + 1;
        }
        let mut b: usize = e;
        while a < b && (v[b - 1] == 32 || v[b - 1] == 9)
            invariant
                a <= b <= e <= n,
                n == v@.len(),
                trim_hi(v@, a as int, b as int) == trim_hi(v@, a as int, e as int),
            decreases b - a,
        {
            b = b - 1;
        }
        assert(token_at(v@, s as int) == v@.subrange(a as int, b as int));
        if same_name_at(v, a, b, name) {
            return true;
        }
        if e == n {
            assert forall|t: int| is_seg_start(v@, t) implies !same_name(
                #[trigger] token_at(v@, t),
                name@,
            ) by {
                if t > s {
                    assert(v@[t - 1] != 44);
                }
            }
            return false;
        }
        assert forall|t: int| 0 <= t < e + 1 && is_seg_start(v@, t) implies !same_name(
            #[trigger] token_at(v@, t),
            name@,
        ) by {
            if t > s {
                assert(v@[t - 1] != 44);
            }
        }
        s = e + 1;
    }
}

/// Whether some `Connection` header of `headers` names `name`.
pub fn nominated_exec(headers: &Vec<Header>, name: &[u8]) -> (r: bool)
    ensures
        r == nominated(view_all(headers@), name@),
{
    let conn = connection_bytes();
    let mut i: usize = 0;
    while i < headers.len()
        invariant
            i <= headers@.len(),
            conn@ == connection_name(),
            forall|j: int|
                0 <= j < i ==> !(same_name(#[trigger] view_all(headers@)[j].0, connection_name())
                    && lists_name(view_all(headers@)[j].1, name@)),
        decreases headers@.len() - i,
    {
        let h = &headers[i];
        assert(view_all(headers@)[i as int] == h@);
        if eq_ignore_case(h.name.as_slice(), conn.as_slice()) && lists_name_exec(
            h.value.as_slice(),
            name,
        ) {
            assert(same_name(view_all(headers@)[i as int].0, connection_name()) && lists_name(
                view_all(headers@)[i as int].1,
                name@,
            ));
            return true;
        }
        i = i + 1;
    }
    false
}

/// Whether `name` belongs to the fixed hop-by-hop set.
pub fn is_fixed_hop_exec(name: &[u8]) -> (r: bool)
    ensures
        r == is_fixed_hop(name@),
{
    eq_ignore_case(name, connection_bytes().as_slice()) || eq_ignore_case(
        name,
        keep_alive_bytes().as_slice(),
    ) || eq_ignore_case(name, proxy_authenticate_bytes().as_slice()) || eq_ignore_case(
        name,
        proxy_authorization_bytes().as_slice(),
    ) || eq_ignore_case(name, te_bytes().as_slice()) || eq_ignore_case(
        name,
        trailer_bytes().as_slice(),
    ) || eq_ignore_case(name, transfer_encoding_bytes().as_slice()) || eq_ignore_case(
        name,
        upgrade_bytes().as_slice(),
    )
}

/// Strips the hop-by-hop headers (the fixed set and every header named in a
/// `Connection` value) and, on the outbound-request direction, replaces any
/// `User-Agent` with the configured one, appended last. The inbound-response
/// direction ignores `user_agent`.
pub fn sanitize(dir: Direction, headers: &Vec<Header>, user_agent: &[u8]) -> (r: Vec<Header>)
    ensures
        view_all(r@) == sanitized(view_all(headers@), dir, user_agent@),
{
    let ghost all = view_all(headers@);
    let ua_name = user_agent_bytes();
    let mut out: Vec<Header> = Vec::new();
    let mut i: usize = 0;
    while i < headers.len()
        invariant
            i <= headers@.len(),
            all == view_all(headers@),
            ua_name@ == user_agent_name(),
            view_all(out@) == kept(all, dir, all.subrange(0, i as int)),
        decreases headers@.len() - i,
    {
        let h = &headers[i];
        proof {
            assert(all.subrange(0, i + 1).drop_last() =~= all.subrange(0, i as int));
            assert(all.subrange(0, i + 1).last() == h@);
        }
        let gone = is_fixed_hop_exec(h.name.as_slice()) || nominated_exec(
            headers,
            h.name.as_slice(),
        ) || (dir == Direction::OutboundRequest && eq_ignore_case(
            h.name.as_slice(),
            ua_name.as_slice(),
        ));
        if !gone {
            let ghost before = view_all(out@);
            out.push(h.copy());
            assert(view_all(out@) =~= before.push(h@));
        }
        i = i + 1;
    }
    assert(all.subrange(0, headers@.len() as int) =~= all);
    match dir {
        Direction::OutboundRequest => {
            let ua = Header { name: ua_name, value: vstd::slice::slice_to_vec(user_agent) };
            out.push(ua);
            assert(view_all(out@) =~= kept(all, dir, all).push((user_agent_name(), user_agent@)));
        },
        Direction::InboundResponse => {},
    }
    out
}

proof fn lemma_kept_not_dropped(
    h: Seq<(Seq<u8>, Seq<u8>)>,
    dir: Direction,
    rest: Seq<(Seq<u8>, Seq<u8>)>,
)
    ensures
        forall|k: int|
            0 <= k < kept(h, dir, rest).len() ==> !dropped(h, dir, #[trigger] kept(h, dir, rest)[k].0),
    decreases rest.len(),
{
    if rest.len() > 0 {
        lemma_kept_not_dropped(h, dir, rest.drop_last());
        let r = kept(h, dir, rest.drop_last());
        assert forall|k: int| 0 <= k < kept(h, dir, rest).len() implies !dropped(
            h,
            dir,
            #[trigger] kept(h, dir, rest)[k].0,
        ) by {
            if k < r.len() {
                assert(kept(h, dir, rest)[k] == r[k]);
            }
        }
    }
}

proof fn lemma_kept_all(h: Seq<(Seq<u8>, Seq<u8>)>, dir: Direction, rest: Seq<(Seq<u8>, Seq<u8>)>)
    requires
        forall|k: int| 0 <= k < rest.len() ==> !dropped(h, dir, #[trigger] rest[k].0),
    ensures
        kept(h, dir, rest) == rest,
    decreases rest.len(),
{
    if rest.len() > 0 {
        lemma_kept_all(h, dir, rest.drop_last());
        assert(rest.drop_last().push(rest.last()) =~= rest);
    }
}

/// Sanitizing is idempotent: a sanitized list comes through a second pass unchanged.
pub proof fn sanitize_idempotent(h: Seq<(Seq<u8>, Seq<u8>)>, dir: Direction, ua: Seq<u8>)
    ensures
        sanitized(sanitized(h, dir, ua), dir, ua) == sanitized(h, dir, ua),
{
    let k = kept(h, dir, h);
    let s = sanitized(h, dir, ua);
    lemma_kept_not_dropped(h, dir, h);
    assert(!same_name(user_agent_name(), connection_name())) by {
        assert(lower(user_agent_name()[0]) != lower(connection_name()[0]));
    }
    assert forall|k2: int| 0 <= k2 < s.len() implies !same_name(
        #[trigger] s[k2].0,
        connection_name(),
    ) by {
        if k2 < k.len() {
            assert(!dropped(h, dir, k[k2].0));
        }
    }
    assert forall|name: Seq<u8>| !nominated(s, name) by {
        if nominated(s, name) {
            let i = choose|i: int|
                0 <= i < s.len() && same_name(#[trigger] s[i].0, connection_name()) && lists_name(
                    s[i].1,
                    name,
                );
        }
    }
    assert forall|k2: int| 0 <= k2 < k.len() implies !dropped(s, dir, #[trigger] k[k2].0) by {
        assert(!dropped(h, dir, k[k2].0));
        assert(!nominated(s, k[k2].0));
    }
    lemma_kept_all(s, dir, k);
    match dir {
        Direction::OutboundRequest => {
            assert(s.drop_last() =~= k);
            assert(same_name(user_agent_name(), user_agent_name()));
        },
        Direction::InboundResponse => {},
    }
}

} // verus!
