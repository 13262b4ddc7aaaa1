//! The cache manifest and its persisted form.
//!
//! The manifest is the index of the cache directory: a version, an icon
//! count, and one entry per cached image file, in icon-set order. It is
//! persisted as a single JSON document. The encoder's output is pinned
//! exactly by `spec_encode_manifest`. The parser is strict: it is sound
//! (whatever it accepts is exactly the encoding of the manifest it returns)
//! and complete (on exactly the encoding of a well-formed manifest it
//! returns that manifest), so the two contracts together give the round
//! trip.
//!
//! The invariant decided for this format: `icon_count` must equal the number
//! of entries; a document where they disagree is treated as corrupt. An
//! `icon_count` of zero with an empty entry list is valid.

use vstd::prelude::*;

use crate::textutil::{
    all_digits, dec_digit_char, digits_val, lemma_dec_digit_char_val, lemma_digits_canonical,
    lemma_digits_val_mono, lemma_spec_dec_digits, lemma_spec_dec_len, lemma_spec_dec_val,
    push_char, spec_dec, u64_to_string,
};

verus! {

/// The mathematical view of one manifest entry.
pub struct IconInfoView {
    pub size: u32,
    pub index: usize,
    pub path: Seq<char>,
}

/// One entry of the manifest: the pixel size, the position of the image in
/// the icon set, and the path of the cached file.
#[derive(Debug)]
pub struct CachedIconInfo {
    pub size: u32,
    pub index: usize,
    pub path: String,
}

impl View for CachedIconInfo {
    type V = IconInfoView;

    open spec fn view(&self) -> IconInfoView {
        IconInfoView { size: self.size, index: self.index, path: self.path@ }
    }
}

/// The mathematical view of a whole manifest.
pub struct ManifestView {
    pub version: u32,
    pub icon_count: usize,
    pub icons: Seq<IconInfoView>,
}

/// The views of a sequence of manifest entries.
pub open spec fn infos_view(v: Seq<CachedIconInfo>) -> Seq<IconInfoView> {
    Seq::new(v.len(), |i: int| v[i]@)
}

/// The manifest persisted inside the cache directory.
#[derive(Debug)]
pub struct CacheManifest {
    pub version: u32,
    pub icon_count: usize,
    pub icons: Vec<CachedIconInfo>,
}

impl View for CacheManifest {
    type V = ManifestView;

    open spec fn view(&self) -> ManifestView {
        ManifestView {
            version: self.version,
            icon_count: self.icon_count,
            icons: infos_view(self.icons@),
        }
    }
}

/// The manifest invariant: the stored count equals the number of entries.
pub open spec fn manifest_wf(v: ManifestView) -> bool {
    v.icon_count == v.icons.len()
}

/// JSON escaping of one character: quote and backslash get a backslash.
pub open spec fn spec_escape_char(c: char) -> Seq<char> {
    if c == '"' || c == '\\' {
        seq!['\\', c]
    } else {
        seq![c]
    }
}

/// JSON escaping of a whole string.
pub open spec fn spec_escape(s: Seq<char>) -> Seq<char>
    decreases s.len(),
{
    if s.len() == 0 {
        Seq::empty()
    } else {
        spec_escape_char(s[0]) + spec_escape(s.drop_first())
    }
}

proof fn lemma_escape_snoc(s: Seq<char>, c: char)
    ensures
        spec_escape(s.push(c)) == spec_escape(s) + spec_escape_char(c),
    decreases s.len(),
{
    if s.len() == 0 {
        assert(s.push(c)[0] == c);
        assert(s.push(c).drop_first() =~= Seq::<char>::empty());
        assert(spec_escape(s.push(c)) == spec_escape_char(c) + spec_escape(
            s.push(c).drop_first(),
        ));
        assert(spec_escape(Seq::<char>::empty()) == Seq::<char>::empty());
        assert(spec_escape(s.push(c)) =~= spec_escape(s) + spec_escape_char(c));
    } else {
        assert(s.push(c)[0] == s[0]);
        assert(s.push(c).drop_first() =~= s.drop_first().push(c));
        lemma_escape_snoc(s.drop_first(), c);
        assert(spec_escape(s.push(c)) =~= spec_escape(s) + spec_escape_char(c));
    }
}

/// The escape coding is a prefix code: when a fully escaped string stands
/// at the front of another escaped string, the decoded strings align and
/// the remainder is itself an escaped string.
proof fn lemma_escape_prefix(a: Seq<char>, t: Seq<char>, rest: Seq<char>)
    requires
        spec_escape(a) + rest == spec_escape(t),
    ensures
        a.len() <= t.len(),
        a == t.subrange(0, a.len() as int),
        rest == spec_escape(t.skip(a.len() as int)),
    decreases a.len(),
{
    if a.len() == 0 {
        assert(a =~= t.subrange(0, 0));
        assert(spec_escape(a) == Seq::<char>::empty());
        assert(rest =~= spec_escape(t));
        assert(t.skip(0) =~= t);
    } else {
        let a0 = a[0];
        assert(spec_escape(a) == spec_escape_char(a0) + spec_escape(a.drop_first()));
        assert(spec_escape(a).len() >= 1);
        if t.len() == 0 {
            assert(spec_escape(t) == Seq::<char>::empty());
            assert(false);
        }
        let t0 = t[0];
        assert(spec_escape(t) == spec_escape_char(t0) + spec_escape(t.drop_first()));
        assert((spec_escape(a) + rest)[0] == spec_escape_char(a0)[0]);
        assert(spec_escape(t)[0] == spec_escape_char(t0)[0]);
        if a0 == '"' || a0 == '\\' {
            assert(spec_escape_char(a0)[0] == '\\');
            if !(t0 == '"' || t0 == '\\') {
                assert(spec_escape_char(t0)[0] == t0);
                assert(false);
            }
            assert((spec_escape(a) + rest)[1] == spec_escape_char(a0)[1]);
            assert(spec_escape(t)[1] == spec_escape_char(t0)[1]);
            assert(a0 == t0);
        } else {
            assert(spec_escape_char(a0)[0] == a0);
            if t0 == '"' || t0 == '\\' {
                assert(spec_escape_char(t0)[0] == '\\');
                assert(false);
            }
            assert(spec_escape_char(t0)[0] == t0);
            assert(a0 == t0);
        }
        let ec = spec_escape_char(a0);
        assert(spec_escape_char(t0) == ec);
        assert(spec_escape(a.drop_first()).len() + rest.len() == spec_escape(t.drop_first()).len());
        assert forall|k: int|
            0 <= k < spec_escape(t.drop_first()).len() implies (spec_escape(a.drop_first())
            + rest)[k] == spec_escape(t.drop_first())[k] by {
            assert((spec_escape(a) + rest)[ec.len() + k] == spec_escape(t)[ec.len() + k]);
            assert(spec_escape(t)[ec.len() + k] == spec_escape(t.drop_first())[k]);
            if k < spec_escape(a.drop_first()).len() {
                assert((spec_escape(a) + rest)[ec.len() + k] == spec_escape(a)[ec.len() + k]);
                assert(spec_escape(a)[ec.len() + k] == spec_escape(a.drop_first())[k]);
                assert((spec_escape(a.drop_first()) + rest)[k] == spec_escape(a.drop_first())[k]);
            } else {
                assert((spec_escape(a) + rest)[ec.len() + k] == rest[ec.len() + k - spec_escape(
                    a,
                ).len()]);
                assert((spec_escape(a.drop_first()) + rest)[k] == rest[k - spec_escape(
                    a.drop_first(),
                ).len()]);
            }
        }
        assert(spec_escape(a.drop_first()) + rest =~= spec_escape(t.drop_first()));
        lemma_escape_prefix(a.drop_first(), t.drop_first(), rest);
        assert forall|j: int| 0 <= j < a.len() implies a[j] == t.subrange(0, a.len() as int)[j] by {
            if j > 0 {
                assert(a[j] == a.drop_first()[j - 1]);
                assert(a.drop_first()[j - 1] == t.drop_first().subrange(
                    0,
                    a.drop_first().len() as int,
                )[j - 1]);
                assert(t.drop_first().subrange(0, a.drop_first().len() as int)[j - 1]
                    == t.drop_first()[j - 1]);
                assert(t.drop_first()[j - 1] == t[j]);
            }
        }
        assert(a =~= t.subrange(0, a.len() as int));
        assert(t.skip(a.len() as int) =~= t.drop_first().skip(a.len() - 1));
    }
}

/// The encoded form of one manifest entry.
pub open spec fn spec_encode_info(v: IconInfoView) -> Seq<char> {
    "{\"size\":"@ + spec_dec(v.size as nat) + ",\"index\":"@ + spec_dec(v.index as nat)
        + ",\"path\":\""@ + spec_escape(v.path) + "\"}"@
}

/// The encoded form of the entry list, comma separated.
pub open spec fn spec_encode_infos(s: Seq<IconInfoView>) -> Seq<char>
    decreases s.len(),
{
    if s.len() == 0 {
        Seq::empty()
    } else if s.len() == 1 {
        spec_encode_info(s[0])
    } else {
        spec_encode_infos(s.drop_last()) + ","@ + spec_encode_info(s.last())
    }
}

/// The encoded form of a whole manifest.
pub open spec fn spec_encode_manifest(v: ManifestView) -> Seq<char> {
    "{\"version\":"@ + spec_dec(v.version as nat) + ",\"icon_count\":"@ + spec_dec(
        v.icon_count as nat,
    ) + ",\"icons\":["@ + spec_encode_infos(v.icons) + "]}"@
}

/// A region known to hold `x + y` splits at the boundary.
proof fn lemma_concat_split(s: Seq<char>, x: Seq<char>, y: Seq<char>, pos: int, q: int)
    requires
        0 <= pos <= q <= s.len(),
        pos + x.len() + y.len() == q,
        s.subrange(pos, q) == x + y,
    ensures
        s.subrange(pos, pos + x.len()) == x,
        s.subrange(pos + x.len(), q) == y,
{
    assert forall|k: int| pos <= k < q implies #[trigger] s[k] == (x + y)[k - pos] by {
        assert(s.subrange(pos, q)[k - pos] == s[k]);
    }
    assert(s.subrange(pos, pos + x.len()) =~= x);
    assert(s.subrange(pos + x.len(), q) =~= y);
}

/// Splits an encoded entry standing at `pos` into its parts: the literal
/// framing, the two numbers, and the escaped path, with the terminating
/// characters the parser keys on.
proof fn lemma_info_segments(s: Seq<char>, pos: int, q: int, v: IconInfoView)
    requires
        0 <= pos <= q <= s.len(),
        s.subrange(pos, q) == spec_encode_info(v),
    ensures
        ({
            let a = "{\"size\":"@;
            let b = ",\"index\":"@;
            let c = ",\"path\":\""@;
            let d = "\"}"@;
            let e1 = pos + a.len();
            let e2 = e1 + spec_dec(v.size as nat).len();
            let e3 = e2 + b.len();
            let e4 = e3 + spec_dec(v.index as nat).len();
            let e5 = e4 + c.len();
            let e6 = e5 + spec_escape(v.path).len();
            &&& q == e6 + d.len()
            &&& s.subrange(pos, e1) == a
            &&& s.subrange(e1, e2) == spec_dec(v.size as nat)
            &&& s.subrange(e2, e3) == b
            &&& s.subrange(e3, e4) == spec_dec(v.index as nat)
            &&& s.subrange(e4, e5) == c
            &&& s.subrange(e5, e6) == spec_escape(v.path)
            &&& s.subrange(e6, q) == d
            &&& s[e2] == ','
            &&& s[e4] == ','
            &&& s[e6] == '"'
        }),
{
    let a = "{\"size\":"@;
    let b = ",\"index\":"@;
    let c = ",\"path\":\""@;
    let d = "\"}"@;
    let e1 = pos + a.len();
    let e2 = e1 + spec_dec(v.size as nat).len();
    let e3 = e2 + b.len();
    let e4 = e3 + spec_dec(v.index as nat).len();
    let e5 = e4 + c.len();
    let e6 = e5 + spec_escape(v.path).len();
    assert(s.subrange(pos, q).len() == q - pos);
    assert(spec_encode_info(v).len() == a.len() + spec_dec(v.size as nat).len() + b.len()
        + spec_dec(v.index as nat).len() + c.len() + spec_escape(v.path).len() + d.len());
    assert(q == e6 + d.len());
    let part5 = a + spec_dec(v.size as nat) + b + spec_dec(v.index as nat) + c + spec_escape(
        v.path,
    );
    let part4 = a + spec_dec(v.size as nat) + b + spec_dec(v.index as nat) + c;
    let part3 = a + spec_dec(v.size as nat) + b + spec_dec(v.index as nat);
    let part2 = a + spec_dec(v.size as nat) + b;
    let part1 = a + spec_dec(v.size as nat);
    lemma_concat_split(s, part5, d, pos, q);
    lemma_concat_split(s, part4, spec_escape(v.path), pos, e6);
    lemma_concat_split(s, part3, c, pos, e5);
    lemma_concat_split(s, part2, spec_dec(v.index as nat), pos, e4);
    lemma_concat_split(s, part1, b, pos, e3);
    lemma_concat_split(s, a, spec_dec(v.size as nat), pos, e2);
    reveal_strlit(",\"index\":");
    reveal_strlit(",\"path\":\"");
    reveal_strlit("\"}");
    assert(s[e2] == b[0]);
    assert(s[e4] == c[0]);
    assert(s[e6] == d[0]);
}

/// Splits a whole encoded manifest into its parts, with the terminating
/// characters the parser keys on.
proof fn lemma_manifest_segments(s: Seq<char>, v: ManifestView)
    requires
        s == spec_encode_manifest(v),
    ensures
        ({
            let a = "{\"version\":"@;
            let b = ",\"icon_count\":"@;
            let c = ",\"icons\":["@;
            let d = "]}"@;
            let f1 = a.len() as int;
            let f2 = f1 + spec_dec(v.version as nat).len();
            let f3 = f2 + b.len();
            let f4 = f3 + spec_dec(v.icon_count as nat).len();
            let f5 = f4 + c.len();
            let f6 = f5 + spec_encode_infos(v.icons).len();
            &&& s.len() == f6 + d.len()
            &&& s.len() == f6 + 2
            &&& s.subrange(0, f1) == a
            &&& s.subrange(f1, f2) == spec_dec(v.version as nat)
            &&& s.subrange(f2, f3) == b
            &&& s.subrange(f3, f4) == spec_dec(v.icon_count as nat)
            &&& s.subrange(f4, f5) == c
            &&& s.subrange(f5, f6) == spec_encode_infos(v.icons)
            &&& s.subrange(f6, s.len() as int) == d
            &&& s[f2] == ','
            &&& s[f4] == ','
            &&& s[f6] == ']'
        }),
{
    let a = "{\"version\":"@;
    let b = ",\"icon_count\":"@;
    let c = ",\"icons\":["@;
    let d = "]}"@;
    let f1 = a.len() as int;
    let f2 = f1 + spec_dec(v.version as nat).len();
    let f3 = f2 + b.len();
    let f4 = f3 + spec_dec(v.icon_count as nat).len();
    let f5 = f4 + c.len();
    let f6 = f5 + spec_encode_infos(v.icons).len();
    let n = s.len() as int;
    assert(s.subrange(0, n) =~= s);
    assert(s.len() == f6 + d.len());
    let part4 = a + spec_dec(v.version as nat) + b + spec_dec(v.icon_count as nat) + c;
    let part5 = part4 + spec_encode_infos(v.icons);
    let part3 = a + spec_dec(v.version as nat) + b + spec_dec(v.icon_count as nat);
    let part2 = a + spec_dec(v.version as nat) + b;
    let part1 = a + spec_dec(v.version as nat);
    lemma_concat_split(s, part5, d, 0, n);
    lemma_concat_split(s, part4, spec_encode_infos(v.icons), 0, f6);
    lemma_concat_split(s, part3, c, 0, f5);
    lemma_concat_split(s, part2, spec_dec(v.icon_count as nat), 0, f4);
    lemma_concat_split(s, part1, b, 0, f3);
    lemma_concat_split(s, a, spec_dec(v.version as nat), 0, f2);
    reveal_strlit(",\"icon_count\":");
    reveal_strlit(",\"icons\":[");
    reveal_strlit("]}");
    assert(d.len() == 2);
    assert(s[f2] == b[0]);
    assert(s[f4] == c[0]);
    assert(s[f6] == d[0]);
}

/// The encoding of the entries from `k` on, each preceded by its separating
/// comma; meaningful for `k >= 1`.
spec fn spec_encode_rest(views: Seq<IconInfoView>, k: int) -> Seq<char>
    decreases views.len() - k,
{
    if k < 0 || k >= views.len() {
        Seq::empty()
    } else {
        ","@ + spec_encode_info(views[k]) + spec_encode_rest(views, k + 1)
    }
}

proof fn lemma_encode_rest_drop_last(views: Seq<IconInfoView>, k: int)
    requires
        views.len() >= 2,
        1 <= k <= views.len() - 1,
    ensures
        spec_encode_rest(views, k) == spec_encode_rest(views.drop_last(), k) + ","@
            + spec_encode_info(views.last()),
    decreases views.len() - k,
{
    if k == views.len() - 1 {
        assert(spec_encode_rest(views.drop_last(), k) == Seq::<char>::empty());
        assert(spec_encode_rest(views, k) == ","@ + spec_encode_info(views[k])
            + spec_encode_rest(views, k + 1));
        assert(spec_encode_rest(views, k + 1) == Seq::<char>::empty());
        assert(views[k] == views.last());
        assert(spec_encode_rest(views, k) =~= spec_encode_rest(views.drop_last(), k) + ","@
            + spec_encode_info(views.last()));
    } else {
        lemma_encode_rest_drop_last(views, k + 1);
        assert(views.drop_last()[k] == views[k]);
        assert(spec_encode_rest(views, k) == ","@ + spec_encode_info(views[k])
            + spec_encode_rest(views, k + 1));
        assert(spec_encode_rest(views.drop_last(), k) == ","@ + spec_encode_info(
            views.drop_last()[k],
        ) + spec_encode_rest(views.drop_last(), k + 1));
        assert(spec_encode_rest(views, k) =~= spec_encode_rest(views.drop_last(), k) + ","@
            + spec_encode_info(views.last()));
    }
}

/// Front decomposition of the entry-list encoding: the first entry, then
/// the comma-separated rest.
proof fn lemma_encode_infos_front(views: Seq<IconInfoView>)
    requires
        views.len() >= 1,
    ensures
        spec_encode_infos(views) == spec_encode_info(views[0]) + spec_encode_rest(views, 1),
    decreases views.len(),
{
    if views.len() == 1 {
        assert(spec_encode_rest(views, 1) =~= Seq::<char>::empty());
        assert(spec_encode_infos(views) =~= spec_encode_info(views[0]) + spec_encode_rest(
            views,
            1,
        ));
    } else {
        let pre = views.drop_last();
        lemma_encode_infos_front(pre);
        lemma_encode_rest_drop_last(views, 1);
        assert(pre[0] == views[0]);
        assert(spec_encode_infos(views) =~= spec_encode_info(views[0]) + spec_encode_rest(
            views,
            1,
        ));
    }
}

/// A nonempty entry-list encoding opens with a brace.
proof fn lemma_encode_infos_first(views: Seq<IconInfoView>)
    requires
        views.len() >= 1,
    ensures
        spec_encode_infos(views).len() >= 1,
        spec_encode_infos(views)[0] == '{',
    decreases views.len(),
{
    reveal_strlit("{\"size\":");
    if views.len() == 1 {
        assert(spec_encode_info(views[0])[0] == "{\"size\":"@[0]);
    } else {
        lemma_encode_infos_first(views.drop_last());
    }
}

/// Appends the escaped form of `s` to `out`.
fn append_escaped(out: &mut String, s: &str)
    ensures
        final(out)@ == old(out)@ + spec_escape(s@),
{
    let n = s.unicode_len();
    proof {
        assert(spec_escape(s@.subrange(0, 0)) =~= Seq::<char>::empty());
        assert(out@ =~= out@ + spec_escape(s@.subrange(0, 0)));
    }
    let mut i: usize = 0;
    while i < n
        invariant
            n == s@.len(),
            i <= n,
            out@ == old(out)@ + spec_escape(s@.subrange(0, i as int)),
        decreases n - i,
    {
        let c = s.get_char(i);
        proof {
            lemma_escape_snoc(s@.subrange(0, i as int), c);
            assert(s@.subrange(0, i + 1 as int) =~= s@.subrange(0, i as int).push(c));
        }
        if c == '"' || c == '\\' {
            push_char(out, '\\');
            push_char(out, c);
        } else {
            push_char(out, c);
        }
        proof {
            assert(out@ =~= old(out)@ + spec_escape(s@.subrange(0, i + 1 as int)));
        }
        i += 1;
    }
    proof {
        assert(s@.subrange(0, s@.len() as int) =~= s@);
    }
}

/// Appends the encoded form of one entry to `out`.
fn append_info(out: &mut String, info: &CachedIconInfo)
    ensures
        final(out)@ == old(out)@ + spec_encode_info(info@),
{
    out.append("{\"size\":");
    let size_str = u64_to_string(info.size as u64);
    out.append(size_str.as_str());
    out.append(",\"index\":");
    let index_str = u64_to_string(info.index as u64);
    out.append(index_str.as_str());
    out.append(",\"path\":\"");
    append_escaped(out, info.path.as_str());
    out.append("\"}");
    proof {
        assert(out@ =~= old(out)@ + spec_encode_info(info@));
    }
}

/// Renders a manifest into its persisted JSON form.
pub fn encode_manifest(m: &CacheManifest) -> (s: String)
    ensures
        s@ == spec_encode_manifest(m@),
{
    let mut s = String::from_str("{\"version\":");
    let version_str = u64_to_string(m.version as u64);
    s.append(version_str.as_str());
    s.append(",\"icon_count\":");
    let count_str = u64_to_string(m.icon_count as u64);
    s.append(count_str.as_str());
    s.append(",\"icons\":[");
    let ghost header: Seq<char> = s@;
    let mut i: usize = 0;
    while i < m.icons.len()
        invariant
            i <= m.icons@.len(),
            s@ == header + spec_encode_infos(infos_view(m.icons@).subrange(0, i as int)),
            header == "{\"version\":"@ + spec_dec(m@.version as nat) + ",\"icon_count\":"@
                + spec_dec(m@.icon_count as nat) + ",\"icons\":["@,
        decreases m.icons@.len() - i,
    {
        if i > 0 {
            s.append(",");
        }
        append_info(&mut s, &m.icons[i]);
        proof {
            let views = infos_view(m.icons@);
            assert(views.subrange(0, i + 1 as int).drop_last() =~= views.subrange(0, i as int));
            assert(views.subrange(0, i + 1 as int).last() == m.icons@[i as int]@);
            assert(s@ =~= header + spec_encode_infos(views.subrange(0, i + 1 as int)));
        }
        i += 1;
    }
    s.append("]}");
    proof {
        assert(infos_view(m.icons@).subrange(0, m.icons@.len() as int) =~= infos_view(m.icons@));
        assert(s@ =~= spec_encode_manifest(m@));
    }
    s
}

/// Checks that `lit` occurs in `s` at `pos`; returns the position just past
/// it. Complete: fails only when the literal is not there.
fn expect_lit(s: &str, pos: usize, lit: &str) -> (r: Option<usize>)
    ensures
        r matches Some(p) ==> p == pos + lit@.len() && p <= s@.len() && s@.subrange(
            pos as int,
            p as int,
        ) == lit@,
        r is None ==> !(pos + lit@.len() <= s@.len() && s@.subrange(
            pos as int,
            pos + lit@.len(),
        ) == lit@),
{
    let n = s.unicode_len();
    let ln = lit.unicode_len();
    if pos > n || ln > n - pos {
        return None;
    }
    let mut i: usize = 0;
    while i < ln
        invariant
            n == s@.len(),
            ln == lit@.len(),
            pos + ln <= n,
            i <= ln,
            forall|j: int| 0 <= j < i ==> s@[pos + j] == lit@[j],
        decreases ln - i,
    {
        if s.get_char(pos + i) != lit.get_char(i) {
            proof {
                assert(s@.subrange(pos as int, pos + ln as int)[i as int] != lit@[i as int]);
            }
            return None;
        }
        i += 1;
    }
    proof {
        assert(s@.subrange(pos as int, (pos + ln) as int) =~= lit@);
    }
    Some(pos + ln)
}

/// Parses a canonical decimal number (no leading zero unless it is "0") at
/// `pos`, greedily. Sound: what was consumed is exactly the decimal
/// rendering of the returned value. Complete: whenever the decimal
/// rendering of a number stands at `pos`, followed by a non-digit or the
/// end, the parse returns exactly that number and position.
fn parse_u64(s: &str, pos: usize) -> (r: Option<(u64, usize)>)
    ensures
        r matches Some((n, p)) ==> pos < p <= s@.len() && s@.subrange(pos as int, p as int)
            == spec_dec(n as nat),
        forall|v: u64, q: int|
            #![trigger s@.subrange(pos as int, q), spec_dec(v as nat)]
            pos <= q <= s@.len() && s@.subrange(pos as int, q) == spec_dec(v as nat) && (q
                == s@.len() || !('0' <= s@[q] <= '9')) ==> r == Some((v, q as usize)),
{
    let len = s.unicode_len();
    if pos >= len {
        proof {
            assert forall|v: u64, q: int|
                pos <= q <= s@.len() && s@.subrange(pos as int, q) == spec_dec(v as nat) && (q
                    == s@.len() || !('0' <= s@[q] <= '9')) implies false by {
                lemma_spec_dec_len(v as nat);
                assert(q - pos == spec_dec(v as nat).len());
            }
        }
        return None;
    }
    let c0 = s.get_char(pos);
    let d0 = c0 as u32;
    if d0 == 48 {
        proof {
            assert(c0 as u32 == '0' as u32);
            assert(c0 == '0');
            assert(spec_dec(0) =~= seq!['0']);
            assert(s@.subrange(pos as int, pos + 1 as int) =~= seq!['0']);
            assert forall|v: u64, q: int|
                pos <= q <= s@.len() && s@.subrange(pos as int, q) == spec_dec(v as nat) && (q
                    == s@.len() || !('0' <= s@[q] <= '9')) implies v == 0 && q == pos + 1 by {
                lemma_spec_dec_digits(v as nat);
                lemma_spec_dec_len(v as nat);
                assert(spec_dec(v as nat)[0] == s@.subrange(pos as int, q)[0]);
                assert(spec_dec(v as nat)[0] == '0');
                assert(spec_dec(v as nat).len() == 1);
                if (v as nat) < 10 {
                    lemma_dec_digit_char_val(v as nat);
                    assert(dec_digit_char(v as nat) as nat == '0' as nat);
                }
            }
        }
        return Some((0, pos + 1));
    }
    if d0 < 49 || d0 > 57 {
        proof {
            assert forall|v: u64, q: int|
                pos <= q <= s@.len() && s@.subrange(pos as int, q) == spec_dec(v as nat) && (q
                    == s@.len() || !('0' <= s@[q] <= '9')) implies false by {
                lemma_spec_dec_digits(v as nat);
                lemma_spec_dec_len(v as nat);
                assert(spec_dec(v as nat)[0] == s@.subrange(pos as int, q)[0]);
                assert('0' <= c0 <= '9');
            }
        }
        return None;
    }
    let mut n: u64 = (d0 - 48) as u64;
    let mut p: usize = pos + 1;
    proof {
        let ds = s@.subrange(pos as int, p as int);
        assert(ds =~= seq![c0]);
        assert(ds.drop_last() =~= Seq::<char>::empty());
        assert(ds.last() == c0);
        assert(digits_val(Seq::<char>::empty()) == 0);
        assert(digits_val(ds) == digits_val(ds.drop_last()) * 10 + ((ds.last() as nat - 48)
            as nat));
        assert(c0 as nat == d0 as nat);
        assert(digits_val(ds) == n);
    }
    loop
        invariant
            len == s@.len(),
            pos < p <= len,
            all_digits(s@.subrange(pos as int, p as int)),
            s@.subrange(pos as int, p as int)[0] != '0',
            digits_val(s@.subrange(pos as int, p as int)) == n,
        ensures
            pos < p <= len,
            all_digits(s@.subrange(pos as int, p as int)),
            s@.subrange(pos as int, p as int)[0] != '0',
            digits_val(s@.subrange(pos as int, p as int)) == n,
            p == len || !('0' <= s@[p as int] <= '9'),
        decreases len - p,
    {
        if p >= len {
            break;
        }
        let c = s.get_char(p);
        let dc = c as u32;
        if dc < 48 || dc > 57 {
            proof {
                assert(!('0' <= c <= '9'));
            }
            break;
        }
        let d = (dc - 48) as u64;
        if n > (u64::MAX - d) / 10 {
            // A canonical rendering at `pos` would fit in u64, so its
            // digits can never drive the accumulator past the bound.
            proof {
                assert forall|v: u64, q: int|
                    pos <= q <= s@.len() && s@.subrange(pos as int, q) == spec_dec(v as nat) && (q
                        == s@.len() || !('0' <= s@[q] <= '9')) implies false by {
                    let ds = s@.subrange(pos as int, p as int);
                    assert forall|j: int|
                        pos <= j < p implies '0' <= #[trigger] s@[j] <= '9' && s@[j] == ds[j
                        - pos] by {
                        assert(ds[j - pos] == s@[j]);
                        assert('0' <= ds[j - pos] <= '9');
                    }
                    assert(q > p) by {
                        if q <= p {
                            assert('0' <= s@[q] <= '9');
                        }
                    }
                    let ds2 = s@.subrange(pos as int, p + 1 as int);
                    assert(ds2 =~= spec_dec(v as nat).subrange(0, p + 1 - pos));
                    lemma_spec_dec_val(v as nat);
                    lemma_digits_val_mono(spec_dec(v as nat), p + 1 - pos);
                    assert(digits_val(ds2) <= v as nat);
                    assert(ds2.drop_last() =~= ds);
                    assert(ds2.last() == c);
                    assert(digits_val(ds2) == digits_val(ds) * 10 + ((c as nat - 48) as nat));
                    assert((c as nat - 48) as nat == d as nat);
                    assert(n > (u64::MAX - d) / 10);
                    assert(n * 10 + d > u64::MAX) by {
                        assert(n >= (u64::MAX - d) / 10 + 1);
                        assert(((u64::MAX - d) / 10) * 10 + 9 >= u64::MAX - d);
                    }
                }
            }
            return None;
        }
        proof {
            let ds = s@.subrange(pos as int, p as int);
            let ds2 = s@.subrange(pos as int, p + 1 as int);
            assert(ds2 =~= ds.push(c));
            assert(ds2.drop_last() =~= ds);
            assert(digits_val(ds2) == digits_val(ds) * 10 + ((c as nat - 48) as nat));
        }
        n = n * 10 + d;
        p += 1;
    }
    proof {
        lemma_digits_canonical(s@.subrange(pos as int, p as int));
        assert forall|v: u64, q: int|
            pos <= q <= s@.len() && s@.subrange(pos as int, q) == spec_dec(v as nat) && (q
                == s@.len() || !('0' <= s@[q] <= '9')) implies v == n && q == p by {
            let ds = s@.subrange(pos as int, p as int);
            assert forall|j: int|
                pos <= j < p implies '0' <= #[trigger] s@[j] <= '9' && s@[j] == ds[j - pos] by {
                assert(ds[j - pos] == s@[j]);
                assert('0' <= ds[j - pos] <= '9');
            }
            lemma_spec_dec_digits(v as nat);
            assert forall|j: int|
                pos <= j < q implies '0' <= #[trigger] s@[j] <= '9' && s@[j] == spec_dec(
                v as nat,
            )[j - pos] by {
                assert(spec_dec(v as nat)[j - pos] == s@.subrange(pos as int, q)[j - pos]);
                assert(s@.subrange(pos as int, q)[j - pos] == s@[j]);
                assert('0' <= spec_dec(v as nat)[j - pos] <= '9');
            }
            assert(q == p) by {
                if q < p {
                    assert('0' <= s@[q] <= '9');
                } else if q > p {
                    assert('0' <= s@[p as int] <= '9');
                }
            }
            lemma_spec_dec_val(v as nat);
            assert(digits_val(ds) == v as nat);
        }
    }
    Some((n, p))
}

/// Parses the body of a JSON string (after the opening quote), stopping just
/// before the closing quote. Sound: what was consumed is exactly the escaped
/// form of the returned string. Complete: whenever the escaped form of a
/// string stands at `pos`, closed by an unescaped quote, the parse returns
/// exactly that string — the escape coding is a prefix code, so the parse
/// position can only track its block structure.
#[verifier::rlimit(100)]
fn parse_string_body(s: &str, pos: usize) -> (r: Option<(String, usize)>)
    ensures
        r matches Some((out, p)) ==> pos <= p <= s@.len() && s@.subrange(pos as int, p as int)
            == spec_escape(out@),
        forall|t: Seq<char>, q: int|
            #![trigger s@.subrange(pos as int, q), spec_escape(t)]
            pos <= q < s@.len() && s@.subrange(pos as int, q) == spec_escape(t) && s@[q] == '"'
                ==> (r matches Some(u) && u.0@ == t && u.1 == q),
{
    let len = s.unicode_len();
    if pos > len {
        return None;
    }
    let mut out = String::new();
    let mut p: usize = pos;
    proof {
        assert(s@.subrange(pos as int, pos as int) =~= spec_escape(out@));
    }
    while p < len
        invariant
            len == s@.len(),
            pos <= p <= len,
            s@.subrange(pos as int, p as int) == spec_escape(out@),
            forall|t: Seq<char>, q: int|
                #![trigger s@.subrange(pos as int, q), spec_escape(t)]
                pos <= q < len && s@.subrange(pos as int, q) == spec_escape(t) && s@[q] == '"'
                    ==> p <= q,
        decreases len - p,
    {
        let c = s.get_char(p);
        if c == '"' {
            proof {
                assert forall|t: Seq<char>, q: int|
                    pos <= q < len && s@.subrange(pos as int, q) == spec_escape(t) && s@[q] == '"'
                        implies p == q && out@ == t by {
                    assert(s@.subrange(pos as int, q) =~= s@.subrange(pos as int, p as int)
                        + s@.subrange(p as int, q));
                    lemma_escape_prefix(out@, t, s@.subrange(p as int, q));
                    let tail = t.skip(out@.len() as int);
                    assert(spec_escape(tail).len() == q - p);
                    if p < q {
                        assert(tail.len() > 0) by {
                            if tail.len() == 0 {
                                assert(spec_escape(tail) == Seq::<char>::empty());
                            }
                        }
                        assert(spec_escape(tail) == spec_escape_char(tail[0]) + spec_escape(
                            tail.drop_first(),
                        ));
                        assert(spec_escape(tail)[0] == spec_escape_char(tail[0])[0]);
                        assert(s@.subrange(p as int, q)[0] == s@[p as int]);
                        if tail[0] == '"' || tail[0] == '\\' {
                            assert(spec_escape_char(tail[0])[0] == '\\');
                        } else {
                            assert(spec_escape_char(tail[0])[0] == tail[0]);
                        }
                        assert(false);
                    }
                    assert(tail.len() == 0) by {
                        if tail.len() > 0 {
                            assert(spec_escape(tail) == spec_escape_char(tail[0]) + spec_escape(
                                tail.drop_first(),
                            ));
                        }
                    }
                    assert(out@ =~= t);
                }
            }
            return Some((out, p));
        }
        if c == '\\' {
            proof {
                assert forall|t: Seq<char>, q: int|
                    pos <= q < len && s@.subrange(pos as int, q) == spec_escape(t) && s@[q] == '"'
                        implies p + 2 <= q && (s@[p + 1] == '"' || s@[p + 1] == '\\') by {
                    assert(s@.subrange(pos as int, q) =~= s@.subrange(pos as int, p as int)
                        + s@.subrange(p as int, q));
                    lemma_escape_prefix(out@, t, s@.subrange(p as int, q));
                    let tail = t.skip(out@.len() as int);
                    assert(p < q) by {
                        if p == q {
                            assert(s@[q] == '"');
                        }
                    }
                    assert(spec_escape(tail).len() == q - p);
                    assert(tail.len() > 0) by {
                        if tail.len() == 0 {
                            assert(spec_escape(tail) == Seq::<char>::empty());
                        }
                    }
                    assert(spec_escape(tail) == spec_escape_char(tail[0]) + spec_escape(
                        tail.drop_first(),
                    ));
                    assert(spec_escape(tail)[0] == spec_escape_char(tail[0])[0]);
                    assert(s@.subrange(p as int, q)[0] == s@[p as int]);
                    assert(tail[0] == '"' || tail[0] == '\\') by {
                        if !(tail[0] == '"' || tail[0] == '\\') {
                            assert(spec_escape_char(tail[0])[0] == tail[0]);
                        }
                    }
                    assert(spec_escape_char(tail[0]).len() == 2);
                    assert(spec_escape(tail).len() >= 2);
                    assert(spec_escape(tail)[1] == spec_escape_char(tail[0])[1]);
                    assert(spec_escape_char(tail[0])[1] == tail[0]);
                    assert(s@.subrange(p as int, q)[1] == s@[p + 1]);
                }
            }
            if len - p < 2 {
                proof {
                    assert forall|t: Seq<char>, q: int|
                        pos <= q < len && s@.subrange(pos as int, q) == spec_escape(t) && s@[q]
                            == '"' implies false by {}
                }
                return None;
            }
            let c2 = s.get_char(p + 1);
            if c2 == '"' || c2 == '\\' {
                proof {
                    lemma_escape_snoc(out@, c2);
                    assert(s@.subrange(pos as int, p + 2 as int) =~= s@.subrange(
                        pos as int,
                        p as int,
                    ) + seq!['\\', c2]);
                }
                push_char(&mut out, c2);
                p += 2;
            } else {
                proof {
                    assert forall|t: Seq<char>, q: int|
                        pos <= q < len && s@.subrange(pos as int, q) == spec_escape(t) && s@[q]
                            == '"' implies false by {}
                }
                return None;
            }
        } else {
            proof {
                assert forall|t: Seq<char>, q: int|
                    pos <= q < len && s@.subrange(pos as int, q) == spec_escape(t) && s@[q] == '"'
                        implies p + 1 <= q by {
                    if p == q {
                        assert(s@[q] == '"');
                    }
                }
                lemma_escape_snoc(out@, c);
                assert(s@.subrange(pos as int, p + 1 as int) =~= s@.subrange(pos as int, p as int)
                    + seq![c]);
            }
            push_char(&mut out, c);
            p += 1;
        }
    }
    proof {
        assert forall|t: Seq<char>, q: int|
            pos <= q < len && s@.subrange(pos as int, q) == spec_escape(t) && s@[q]
                == '"' implies false by {}
    }
    None
}

/// Parses one manifest entry. Sound: what was consumed is exactly the
/// encoding of the returned entry. Complete: when an entry's encoding
/// stands at `pos`, the parse returns exactly that entry.
#[verifier::rlimit(100)]
fn parse_info(s: &str, pos: usize) -> (r: Option<(CachedIconInfo, usize)>)
    ensures
        r matches Some((info, p)) ==> pos < p <= s@.len() && s@.subrange(pos as int, p as int)
            == spec_encode_info(info@),
        forall|v: IconInfoView, q: int|
            #![trigger s@.subrange(pos as int, q), spec_encode_info(v)]
            pos <= q <= s@.len() && s@.subrange(pos as int, q) == spec_encode_info(v) ==> (
            r matches Some(t) && t.0@ == v && t.1 == q),
{
    let p1 = match expect_lit(s, pos, "{\"size\":") {
        Some(p) => p,
        None => {
            proof {
                assert forall|v: IconInfoView, q: int|
                    pos <= q <= s@.len() && s@.subrange(pos as int, q) == spec_encode_info(
                        v,
                    ) implies false by {
                    lemma_info_segments(s@, pos as int, q, v);
                }
            }
            return None;
        },
    };
    let (size64, p2) = match parse_u64(s, p1) {
        Some(t) => t,
        None => {
            proof {
                assert forall|v: IconInfoView, q: int|
                    pos <= q <= s@.len() && s@.subrange(pos as int, q) == spec_encode_info(
                        v,
                    ) implies false by {
                    lemma_info_segments(s@, pos as int, q, v);
                    let e2 = p1 + spec_dec(v.size as nat).len();
                    assert(s@.subrange(p1 as int, e2) == spec_dec((v.size as u64) as nat));
                    assert(!('0' <= s@[e2] <= '9'));
                }
            }
            return None;
        },
    };
    if size64 > 0xffff_ffff {
        proof {
            assert forall|v: IconInfoView, q: int|
                pos <= q <= s@.len() && s@.subrange(pos as int, q) == spec_encode_info(
                    v,
                ) implies false by {
                lemma_info_segments(s@, pos as int, q, v);
                let e2 = p1 + spec_dec(v.size as nat).len();
                assert(s@.subrange(p1 as int, e2) == spec_dec((v.size as u64) as nat));
                assert(!('0' <= s@[e2] <= '9'));
                assert(size64 == v.size as u64);
            }
        }
        return None;
    }
    let size = size64 as u32;
    let p3 = match expect_lit(s, p2, ",\"index\":") {
        Some(p) => p,
        None => {
            proof {
                assert forall|v: IconInfoView, q: int|
                    pos <= q <= s@.len() && s@.subrange(pos as int, q) == spec_encode_info(
                        v,
                    ) implies false by {
                    lemma_info_segments(s@, pos as int, q, v);
                    let e2 = p1 + spec_dec(v.size as nat).len();
                    assert(s@.subrange(p1 as int, e2) == spec_dec((v.size as u64) as nat));
                    assert(!('0' <= s@[e2] <= '9'));
                    assert(p2 == e2);
                }
            }
            return None;
        },
    };
    let (idx64, p4) = match parse_u64(s, p3) {
        Some(t) => t,
        None => {
            proof {
                assert forall|v: IconInfoView, q: int|
                    pos <= q <= s@.len() && s@.subrange(pos as int, q) == spec_encode_info(
                        v,
                    ) implies false by {
                    lemma_info_segments(s@, pos as int, q, v);
                    let e2 = p1 + spec_dec(v.size as nat).len();
                    assert(s@.subrange(p1 as int, e2) == spec_dec((v.size as u64) as nat));
                    assert(!('0' <= s@[e2] <= '9'));
                    assert(p2 == e2);
                    let e4 = p3 + spec_dec(v.index as nat).len();
                    assert(s@.subrange(p3 as int, e4) == spec_dec((v.index as u64) as nat));
                    assert(!('0' <= s@[e4] <= '9'));
                }
            }
            return None;
        },
    };
    if idx64 > usize::MAX as u64 {
        proof {
            assert forall|v: IconInfoView, q: int|
                pos <= q <= s@.len() && s@.subrange(pos as int, q) == spec_encode_info(
                    v,
                ) implies false by {
                lemma_info_segments(s@, pos as int, q, v);
                let e2 = p1 + spec_dec(v.size as nat).len();
                assert(s@.subrange(p1 as int, e2) == spec_dec((v.size as u64) as nat));
                assert(!('0' <= s@[e2] <= '9'));
                assert(p2 == e2);
                let e4 = p3 + spec_dec(v.index as nat).len();
                assert(s@.subrange(p3 as int, e4) == spec_dec((v.index as u64) as nat));
                assert(!('0' <= s@[e4] <= '9'));
                assert(idx64 == v.index as u64);
            }
        }
        return None;
    }
    let index = idx64 as usize;
    let p5 = match expect_lit(s, p4, ",\"path\":\"") {
        Some(p) => p,
        None => {
            proof {
                assert forall|v: IconInfoView, q: int|
                    pos <= q <= s@.len() && s@.subrange(pos as int, q) == spec_encode_info(
                        v,
                    ) implies false by {
                    lemma_info_segments(s@, pos as int, q, v);
                    let e2 = p1 + spec_dec(v.size as nat).len();
                    assert(s@.subrange(p1 as int, e2) == spec_dec((v.size as u64) as nat));
                    assert(!('0' <= s@[e2] <= '9'));
                    assert(p2 == e2);
                    let e4 = p3 + spec_dec(v.index as nat).len();
                    assert(s@.subrange(p3 as int, e4) == spec_dec((v.index as u64) as nat));
                    assert(!('0' <= s@[e4] <= '9'));
                    assert(p4 == e4);
                }
            }
            return None;
        },
    };
    let (path, p6) = match parse_string_body(s, p5) {
        Some(t) => t,
        None => {
            proof {
                assert forall|v: IconInfoView, q: int|
                    pos <= q <= s@.len() && s@.subrange(pos as int, q) == spec_encode_info(
                        v,
                    ) implies false by {
                    lemma_info_segments(s@, pos as int, q, v);
                    let e2 = p1 + spec_dec(v.size as nat).len();
                    assert(s@.subrange(p1 as int, e2) == spec_dec((v.size as u64) as nat));
                    assert(!('0' <= s@[e2] <= '9'));
                    assert(p2 == e2);
                    let e4 = p3 + spec_dec(v.index as nat).len();
                    assert(s@.subrange(p3 as int, e4) == spec_dec((v.index as u64) as nat));
                    assert(!('0' <= s@[e4] <= '9'));
                    assert(p4 == e4);
                    let e6 = p5 + spec_escape(v.path).len();
                    reveal_strlit("\"}");
                    assert(e6 + 2 == q);
                    assert(s@.subrange(p5 as int, e6) == spec_escape(v.path));
                    assert(s@[e6] == '"');
                }
            }
            return None;
        },
    };
    let p7 = match expect_lit(s, p6, "\"}") {
        Some(p) => p,
        None => {
            proof {
                assert forall|v: IconInfoView, q: int|
                    pos <= q <= s@.len() && s@.subrange(pos as int, q) == spec_encode_info(
                        v,
                    ) implies false by {
                    lemma_info_segments(s@, pos as int, q, v);
                    let e2 = p1 + spec_dec(v.size as nat).len();
                    assert(s@.subrange(p1 as int, e2) == spec_dec((v.size as u64) as nat));
                    assert(!('0' <= s@[e2] <= '9'));
                    assert(p2 == e2);
                    let e4 = p3 + spec_dec(v.index as nat).len();
                    assert(s@.subrange(p3 as int, e4) == spec_dec((v.index as u64) as nat));
                    assert(!('0' <= s@[e4] <= '9'));
                    assert(p4 == e4);
                    let e6 = p5 + spec_escape(v.path).len();
                    reveal_strlit("\"}");
                    assert(e6 + 2 == q);
                    assert(s@.subrange(p5 as int, e6) == spec_escape(v.path));
                    assert(s@[e6] == '"');
                    assert(p6 == e6);
                }
            }
            return None;
        },
    };
    let info = CachedIconInfo { size, index, path };
    proof {
        assert(s@.subrange(pos as int, p7 as int) =~= s@.subrange(pos as int, p1 as int)
            + s@.subrange(p1 as int, p2 as int) + s@.subrange(p2 as int, p3 as int) + s@.subrange(
            p3 as int,
            p4 as int,
        ) + s@.subrange(p4 as int, p5 as int) + s@.subrange(p5 as int, p6 as int) + s@.subrange(
            p6 as int,
            p7 as int,
        ));
        assert(s@.subrange(pos as int, p7 as int) =~= spec_encode_info(info@));
        assert forall|v: IconInfoView, q: int|
            pos <= q <= s@.len() && s@.subrange(pos as int, q) == spec_encode_info(
                v,
            ) implies info@ == v && p7 == q by {
            lemma_info_segments(s@, pos as int, q, v);
            let e2 = p1 + spec_dec(v.size as nat).len();
            assert(s@.subrange(p1 as int, e2) == spec_dec((v.size as u64) as nat));
            assert(!('0' <= s@[e2] <= '9'));
            assert(size64 == v.size as u64 && p2 == e2);
            let e4 = p3 + spec_dec(v.index as nat).len();
            assert(s@.subrange(p3 as int, e4) == spec_dec((v.index as u64) as nat));
            assert(!('0' <= s@[e4] <= '9'));
            assert(idx64 == v.index as u64 && p4 == e4);
            let e6 = p5 + spec_escape(v.path).len();
            reveal_strlit("\"}");
            assert(e6 + 2 == q);
            assert(s@.subrange(p5 as int, e6) == spec_escape(v.path));
            assert(s@[e6] == '"');
            assert(path@ == v.path && p6 == e6);
            assert(p7 == q);
            assert(info@ == v);
        }
    }
    Some((info, p7))
}

/// Parses the comma-separated entry list, stopping just before the closing
/// bracket. What was consumed is exactly the encoding of the returned list.
#[verifier::rlimit(100)]
fn parse_icons(s: &str, pos: usize) -> (r: Option<(Vec<CachedIconInfo>, usize)>)
    ensures
        r matches Some((icons, p)) ==> pos <= p <= s@.len() && s@.subrange(pos as int, p as int)
            == spec_encode_infos(infos_view(icons@)),
        forall|views: Seq<IconInfoView>, q: int|
            #![trigger s@.subrange(pos as int, q), spec_encode_infos(views)]
            pos <= q < s@.len() && s@.subrange(pos as int, q) == spec_encode_infos(views) && s@[q]
                == ']' ==> (r matches Some(t) && infos_view(t.0@) == views && t.1 == q),
{
    let len = s.unicode_len();
    let mut icons: Vec<CachedIconInfo> = Vec::new();
    if pos >= len {
        proof {
            assert forall|views: Seq<IconInfoView>, q: int|
                pos <= q < s@.len() && s@.subrange(pos as int, q) == spec_encode_infos(views)
                    && s@[q] == ']' implies false by {}
        }
        return None;
    }
    let c0 = s.get_char(pos);
    if c0 == ']' {
        proof {
            assert(infos_view(icons@) =~= Seq::<IconInfoView>::empty());
            assert(s@.subrange(pos as int, pos as int) =~= spec_encode_infos(infos_view(icons@)));
            assert forall|views: Seq<IconInfoView>, q: int|
                pos <= q < s@.len() && s@.subrange(pos as int, q) == spec_encode_infos(views)
                    && s@[q] == ']' implies infos_view(icons@) == views && pos == q by {
                if views.len() >= 1 {
                    lemma_encode_infos_first(views);
                    assert(s@.subrange(pos as int, q)[0] == spec_encode_infos(views)[0]);
                    assert(s@[pos as int] == '{');
                    assert(false);
                }
                assert(views =~= infos_view(icons@));
            }
        }
        return Some((icons, pos));
    }
    let (info, first_end) = match parse_info(s, pos) {
        Some(t) => t,
        None => {
            proof {
                assert forall|views: Seq<IconInfoView>, q: int|
                    pos <= q < s@.len() && s@.subrange(pos as int, q) == spec_encode_infos(views)
                        && s@[q] == ']' implies false by {
                    assert(views.len() >= 1) by {
                        if views.len() == 0 {
                            assert(s@.subrange(pos as int, q).len() == 0);
                            assert(s@[pos as int] == ']');
                        }
                    }
                    lemma_encode_infos_front(views);
                    let end0 = pos + spec_encode_info(views[0]).len();
                    assert(s@.subrange(pos as int, q).len() == q - pos);
                    lemma_concat_split(
                        s@,
                        spec_encode_info(views[0]),
                        spec_encode_rest(views, 1),
                        pos as int,
                        q,
                    );
                    assert(s@.subrange(pos as int, end0) == spec_encode_info(views[0]));
                        }
            }
            return None;
        },
    };
    icons.push(info);
    let mut p = first_end;
    proof {
        assert(infos_view(icons@) =~= seq![icons@[0]@]);
        assert(s@.subrange(pos as int, p as int) =~= spec_encode_infos(infos_view(icons@)));
        assert forall|views: Seq<IconInfoView>, q: int|
            pos <= q < s@.len() && s@.subrange(pos as int, q) == spec_encode_infos(views) && s@[q]
                == ']' implies icons@.len() <= views.len() && infos_view(icons@) == views.subrange(
            0,
            icons@.len() as int,
        ) && p <= q && s@.subrange(p as int, q) == spec_encode_rest(
            views,
            icons@.len() as int,
        ) by {
            assert(views.len() >= 1) by {
                if views.len() == 0 {
                    assert(s@.subrange(pos as int, q).len() == 0);
                    assert(s@[pos as int] == ']');
                }
            }
            lemma_encode_infos_front(views);
            let end0 = pos + spec_encode_info(views[0]).len();
            assert(s@.subrange(pos as int, q).len() == q - pos);
            lemma_concat_split(
                s@,
                spec_encode_info(views[0]),
                spec_encode_rest(views, 1),
                pos as int,
                q,
            );
            assert(s@.subrange(pos as int, end0) == spec_encode_info(views[0]));
            assert(info@ == views[0] && first_end == end0);
            assert(infos_view(icons@) =~= views.subrange(0, 1));
        }
    }
    loop
        invariant
            len == s@.len(),
            pos < p <= len,
            icons@.len() >= 1,
            s@.subrange(pos as int, p as int) == spec_encode_infos(infos_view(icons@)),
            forall|views: Seq<IconInfoView>, q: int|
                #![trigger s@.subrange(pos as int, q), spec_encode_infos(views)]
                pos <= q < s@.len() && s@.subrange(pos as int, q) == spec_encode_infos(views)
                    && s@[q] == ']' ==> icons@.len() <= views.len() && infos_view(icons@) == views.subrange(
                    0,
                    icons@.len() as int,
                ) && p <= q && s@.subrange(p as int, q) == spec_encode_rest(
                    views,
                    icons@.len() as int,
                ),
        decreases len - p,
    {
        if p >= len {
            return None;
        }
        let c = s.get_char(p);
        if c == ']' {
            proof {
                assert forall|views: Seq<IconInfoView>, q: int|
                    pos <= q < s@.len() && s@.subrange(pos as int, q) == spec_encode_infos(views)
                        && s@[q] == ']' implies infos_view(icons@) == views && p == q by {
                    let kk = icons@.len() as int;
                    if kk < views.len() {
                        reveal_strlit(",");
                        assert(spec_encode_rest(views, kk) == ","@ + spec_encode_info(views[kk])
                            + spec_encode_rest(views, kk + 1));
                        assert(s@.subrange(p as int, q)[0] == ","@[0]);
                        assert(s@[p as int] == ',');
                        assert(false);
                    }
                    assert(spec_encode_rest(views, kk) == Seq::<char>::empty());
                    assert(q == p);
                    assert(views.subrange(0, views.len() as int) =~= views);
                }
            }
            return Some((icons, p));
        }
        if c != ',' {
            proof {
                assert forall|views: Seq<IconInfoView>, q: int|
                    pos <= q < s@.len() && s@.subrange(pos as int, q) == spec_encode_infos(views)
                        && s@[q] == ']' implies false by {
                    let kk = icons@.len() as int;
                    if kk < views.len() {
                        reveal_strlit(",");
                        assert(spec_encode_rest(views, kk) == ","@ + spec_encode_info(views[kk])
                            + spec_encode_rest(views, kk + 1));
                        assert(s@.subrange(p as int, q)[0] == ","@[0]);
                        assert(s@[p as int] == ',');
                    } else {
                        assert(spec_encode_rest(views, kk) == Seq::<char>::empty());
                        assert(q == p);
                        assert(s@[p as int] == ']');
                    }
                }
            }
            return None;
        }
        let (info2, p2) = match parse_info(s, p + 1) {
            Some(t) => t,
            None => {
                proof {
                    assert forall|views: Seq<IconInfoView>, q: int|
                        pos <= q < s@.len() && s@.subrange(pos as int, q) == spec_encode_infos(
                            views,
                        ) && s@[q] == ']' implies false by {
                        let kk = icons@.len() as int;
                        assert(kk < views.len()) by {
                            if kk >= views.len() {
                                assert(spec_encode_rest(views, kk) == Seq::<char>::empty());
                                assert(q == p);
                                assert(s@[p as int] == ']');
                            }
                        }
                        reveal_strlit(",");
                        let ek = p + 1 + spec_encode_info(views[kk]).len();
                        assert(spec_encode_rest(views, kk) == ","@ + spec_encode_info(views[kk])
                            + spec_encode_rest(views, kk + 1));
                        assert(s@.subrange(p as int, q).len() == q - p);
                        lemma_concat_split(
                            s@,
                            ","@ + spec_encode_info(views[kk]),
                            spec_encode_rest(views, kk + 1),
                            p as int,
                            q,
                        );
                        lemma_concat_split(
                            s@,
                            ","@,
                            spec_encode_info(views[kk]),
                            p as int,
                            ek,
                        );
                        assert(s@.subrange(p + 1 as int, ek) == spec_encode_info(views[kk]));
                    }
                }
                return None;
            },
        };
        proof {
            reveal_strlit(",");
        }
        let ghost pre_views = infos_view(icons@);
        icons.push(info2);
        proof {
            let views_now = infos_view(icons@);
            assert(views_now.drop_last() =~= pre_views);
            assert(views_now.last() == info2@);
            assert(spec_encode_infos(views_now) == spec_encode_infos(pre_views) + ","@
                + spec_encode_info(info2@));
            assert(s@.subrange(p as int, p + 1 as int) =~= ","@);
            assert(s@.subrange(pos as int, p2 as int) =~= s@.subrange(pos as int, p as int)
                + s@.subrange(p as int, p + 1 as int) + s@.subrange(p + 1 as int, p2 as int));
            assert(s@.subrange(pos as int, p2 as int) =~= spec_encode_infos(views_now));
            assert forall|views: Seq<IconInfoView>, q: int|
                pos <= q < s@.len() && s@.subrange(pos as int, q) == spec_encode_infos(views)
                    && s@[q] == ']' implies views_now.len() <= views.len() && views_now == views.subrange(
                0,
                views_now.len() as int,
            ) && p2 <= q && s@.subrange(p2 as int, q) == spec_encode_rest(
                views,
                views_now.len() as int,
            ) by {
                let kk = pre_views.len() as int;
                assert(kk < views.len()) by {
                    if kk >= views.len() {
                        assert(spec_encode_rest(views, kk) == Seq::<char>::empty());
                        assert(q == p);
                        assert(s@[p as int] == ']');
                    }
                }
                let ek = p + 1 + spec_encode_info(views[kk]).len();
                assert(spec_encode_rest(views, kk) == ","@ + spec_encode_info(views[kk])
                    + spec_encode_rest(views, kk + 1));
                assert(s@.subrange(p as int, q).len() == q - p);
                lemma_concat_split(
                    s@,
                    ","@ + spec_encode_info(views[kk]),
                    spec_encode_rest(views, kk + 1),
                    p as int,
                    q,
                );
                lemma_concat_split(s@, ","@, spec_encode_info(views[kk]), p as int, ek);
                assert(s@.subrange(p + 1 as int, ek) == spec_encode_info(views[kk]));
                assert(info2@ == views[kk] && p2 == ek);
                assert(views_now =~= views.subrange(0, kk + 1));
            }
        }
        p = p2;
    }
}

/// Parses a persisted manifest document. Strict and sound: returns a
/// manifest only when the whole input is exactly its encoding, and the
/// returned manifest satisfies the count invariant. Complete: on exactly
/// the encoding of a well-formed manifest, the parse returns it.
#[verifier::rlimit(100)]
pub fn parse_manifest(s: &str) -> (r: Option<CacheManifest>)
    ensures
        r matches Some(m) ==> manifest_wf(m@) && s@ == spec_encode_manifest(m@),
        forall|v: ManifestView|
            #![trigger spec_encode_manifest(v)]
            manifest_wf(v) && s@ == spec_encode_manifest(v) ==> (
            r matches Some(m) && m@ == v),
{
    let p1 = match expect_lit(s, 0, "{\"version\":") {
        Some(p) => p,
        None => {
            proof {
                assert forall|v: ManifestView|
                    manifest_wf(v) && s@ == spec_encode_manifest(
                        v,
                    ) implies false by {
                    lemma_manifest_segments(s@, v);
                }
            }
            return None;
        },
    };
    let (ver64, p2) = match parse_u64(s, p1) {
        Some(t) => t,
        None => {
            proof {
                assert forall|v: ManifestView|
                    manifest_wf(v) && s@ == spec_encode_manifest(
                        v,
                    ) implies false by {
                    lemma_manifest_segments(s@, v);
                    let f2 = p1 + spec_dec(v.version as nat).len();
                    assert(s@.subrange(p1 as int, f2) == spec_dec((v.version as u64) as nat));
                    assert(!('0' <= s@[f2] <= '9'));
                }
            }
            return None;
        },
    };
    if ver64 > 0xffff_ffff {
        proof {
            assert forall|v: ManifestView|
                manifest_wf(v) && s@ == spec_encode_manifest(
                    v,
                ) implies false by {
                lemma_manifest_segments(s@, v);
                let f2 = p1 + spec_dec(v.version as nat).len();
                assert(s@.subrange(p1 as int, f2) == spec_dec((v.version as u64) as nat));
                assert(!('0' <= s@[f2] <= '9'));
                assert(ver64 == v.version as u64);
            }
        }
        return None;
    }
    let p3 = match expect_lit(s, p2, ",\"icon_count\":") {
        Some(p) => p,
        None => {
            proof {
                assert forall|v: ManifestView|
                    manifest_wf(v) && s@ == spec_encode_manifest(
                        v,
                    ) implies false by {
                    lemma_manifest_segments(s@, v);
                    let f2 = p1 + spec_dec(v.version as nat).len();
                    assert(s@.subrange(p1 as int, f2) == spec_dec((v.version as u64) as nat));
                    assert(!('0' <= s@[f2] <= '9'));
                    assert(p2 == f2);
                }
            }
            return None;
        },
    };
    let (cnt64, p4) = match parse_u64(s, p3) {
        Some(t) => t,
        None => {
            proof {
                assert forall|v: ManifestView|
                    manifest_wf(v) && s@ == spec_encode_manifest(
                        v,
                    ) implies false by {
                    lemma_manifest_segments(s@, v);
                    let f2 = p1 + spec_dec(v.version as nat).len();
                    assert(s@.subrange(p1 as int, f2) == spec_dec((v.version as u64) as nat));
                    assert(!('0' <= s@[f2] <= '9'));
                    assert(p2 == f2);
                    let f4 = p3 + spec_dec(v.icon_count as nat).len();
                    assert(s@.subrange(p3 as int, f4) == spec_dec((v.icon_count as u64) as nat));
                    assert(!('0' <= s@[f4] <= '9'));
                }
            }
            return None;
        },
    };
    if cnt64 > usize::MAX as u64 {
        proof {
            assert forall|v: ManifestView|
                manifest_wf(v) && s@ == spec_encode_manifest(
                    v,
                ) implies false by {
                lemma_manifest_segments(s@, v);
                let f2 = p1 + spec_dec(v.version as nat).len();
                assert(s@.subrange(p1 as int, f2) == spec_dec((v.version as u64) as nat));
                assert(!('0' <= s@[f2] <= '9'));
                assert(p2 == f2);
                let f4 = p3 + spec_dec(v.icon_count as nat).len();
                assert(s@.subrange(p3 as int, f4) == spec_dec((v.icon_count as u64) as nat));
                assert(!('0' <= s@[f4] <= '9'));
                assert(cnt64 == v.icon_count as u64);
            }
        }
        return None;
    }
    let count = cnt64 as usize;
    let p5 = match expect_lit(s, p4, ",\"icons\":[") {
        Some(p) => p,
        None => {
            proof {
                assert forall|v: ManifestView|
                    manifest_wf(v) && s@ == spec_encode_manifest(
                        v,
                    ) implies false by {
                    lemma_manifest_segments(s@, v);
                    let f2 = p1 + spec_dec(v.version as nat).len();
                    assert(s@.subrange(p1 as int, f2) == spec_dec((v.version as u64) as nat));
                    assert(!('0' <= s@[f2] <= '9'));
                    assert(p2 == f2);
                    let f4 = p3 + spec_dec(v.icon_count as nat).len();
                    assert(s@.subrange(p3 as int, f4) == spec_dec((v.icon_count as u64) as nat));
                    assert(!('0' <= s@[f4] <= '9'));
                    assert(p4 == f4);
                }
            }
            return None;
        },
    };
    let (icons, p6) = match parse_icons(s, p5) {
        Some(t) => t,
        None => {
            proof {
                assert forall|v: ManifestView|
                    manifest_wf(v) && s@ == spec_encode_manifest(
                        v,
                    ) implies false by {
                    lemma_manifest_segments(s@, v);
                    let f2 = p1 + spec_dec(v.version as nat).len();
                    assert(s@.subrange(p1 as int, f2) == spec_dec((v.version as u64) as nat));
                    assert(!('0' <= s@[f2] <= '9'));
                    assert(p2 == f2);
                    let f4 = p3 + spec_dec(v.icon_count as nat).len();
                    assert(s@.subrange(p3 as int, f4) == spec_dec((v.icon_count as u64) as nat));
                    assert(!('0' <= s@[f4] <= '9'));
                    assert(p4 == f4);
                    let f6 = p5 + spec_encode_infos(v.icons).len();
                    assert(s@.subrange(p5 as int, f6) == spec_encode_infos(v.icons));
                    assert(s@[f6] == ']');
                }
            }
            return None;
        },
    };
    let p7 = match expect_lit(s, p6, "]}") {
        Some(p) => p,
        None => {
            proof {
                assert forall|v: ManifestView|
                    manifest_wf(v) && s@ == spec_encode_manifest(
                        v,
                    ) implies false by {
                    lemma_manifest_segments(s@, v);
                    let f2 = p1 + spec_dec(v.version as nat).len();
                    assert(s@.subrange(p1 as int, f2) == spec_dec((v.version as u64) as nat));
                    assert(!('0' <= s@[f2] <= '9'));
                    assert(p2 == f2);
                    let f4 = p3 + spec_dec(v.icon_count as nat).len();
                    assert(s@.subrange(p3 as int, f4) == spec_dec((v.icon_count as u64) as nat));
                    assert(!('0' <= s@[f4] <= '9'));
                    assert(p4 == f4);
                    let f6 = p5 + spec_encode_infos(v.icons).len();
                    assert(s@.subrange(p5 as int, f6) == spec_encode_infos(v.icons));
                    assert(s@[f6] == ']');
                    assert(p6 == f6);
                }
            }
            return None;
        },
    };
    let total = s.unicode_len();
    if p7 != total {
        proof {
            assert forall|v: ManifestView|
                manifest_wf(v) && s@ == spec_encode_manifest(
                    v,
                ) implies false by {
                lemma_manifest_segments(s@, v);
                let f2 = p1 + spec_dec(v.version as nat).len();
                assert(s@.subrange(p1 as int, f2) == spec_dec((v.version as u64) as nat));
                assert(!('0' <= s@[f2] <= '9'));
                assert(p2 == f2);
                let f4 = p3 + spec_dec(v.icon_count as nat).len();
                assert(s@.subrange(p3 as int, f4) == spec_dec((v.icon_count as u64) as nat));
                assert(!('0' <= s@[f4] <= '9'));
                assert(p4 == f4);
                let f6 = p5 + spec_encode_infos(v.icons).len();
                assert(s@.subrange(p5 as int, f6) == spec_encode_infos(v.icons));
                assert(s@[f6] == ']');
                assert(p6 == f6);
                assert(p7 == s@.len());
            }
        }
        return None;
    }
    if icons.len() != count {
        proof {
            assert forall|v: ManifestView|
                manifest_wf(v) && s@ == spec_encode_manifest(
                    v,
                ) implies false by {
                lemma_manifest_segments(s@, v);
                let f2 = p1 + spec_dec(v.version as nat).len();
                assert(s@.subrange(p1 as int, f2) == spec_dec((v.version as u64) as nat));
                assert(!('0' <= s@[f2] <= '9'));
                assert(p2 == f2);
                let f4 = p3 + spec_dec(v.icon_count as nat).len();
                assert(s@.subrange(p3 as int, f4) == spec_dec((v.icon_count as u64) as nat));
                assert(!('0' <= s@[f4] <= '9'));
                assert(p4 == f4);
                assert(cnt64 == v.icon_count as u64);
                let f6 = p5 + spec_encode_infos(v.icons).len();
                assert(s@.subrange(p5 as int, f6) == spec_encode_infos(v.icons));
                assert(s@[f6] == ']');
                assert(infos_view(icons@) == v.icons);
                assert(icons@.len() == v.icons.len());
            }
        }
        return None;
    }
    let m = CacheManifest { version: ver64 as u32, icon_count: count, icons };
    proof {
        assert(s@.subrange(0, p7 as int) =~= s@.subrange(0, p1 as int) + s@.subrange(
            p1 as int,
            p2 as int,
        ) + s@.subrange(p2 as int, p3 as int) + s@.subrange(p3 as int, p4 as int) + s@.subrange(
            p4 as int,
            p5 as int,
        ) + s@.subrange(p5 as int, p6 as int) + s@.subrange(p6 as int, p7 as int));
        assert(s@ =~= s@.subrange(0, p7 as int));
        assert(s@ =~= spec_encode_manifest(m@));
        assert forall|v: ManifestView|
            manifest_wf(v) && s@ == spec_encode_manifest(v) implies m@
            == v by {
            lemma_manifest_segments(s@, v);
            let f2 = p1 + spec_dec(v.version as nat).len();
            assert(s@.subrange(p1 as int, f2) == spec_dec((v.version as u64) as nat));
            assert(!('0' <= s@[f2] <= '9'));
            assert(ver64 == v.version as u64 && p2 == f2);
            let f4 = p3 + spec_dec(v.icon_count as nat).len();
            assert(s@.subrange(p3 as int, f4) == spec_dec((v.icon_count as u64) as nat));
            assert(!('0' <= s@[f4] <= '9'));
            assert(cnt64 == v.icon_count as u64 && p4 == f4);
            let f6 = p5 + spec_encode_infos(v.icons).len();
            assert(s@.subrange(p5 as int, f6) == spec_encode_infos(v.icons));
            assert(s@[f6] == ']');
            assert(infos_view(m.icons@) == v.icons);
            assert(m@ == v);
        }
    }
    Some(m)
}

} // verus!
