//! The pincode-set codec: a set of pincodes is stored as one text field,
//! its members joined by a comma and a space.
use vstd::prelude::*;
use vstd::string::*;
use crate::text::{
    lemma_split_pieces, lemma_trim_clean,
    first_sep_from, is_blank, join, lemma_first_sep_skip, lemma_join_front, push_all, sep_at,
    split, split_on, trim, trim_each, trim_end, trim_start, views, is_blank_char, has_sep_at,
};

verus! {

/// The separator between two pincodes in the stored text.
pub open spec fn pincode_sep() -> Seq<char> {
    seq![',', ' ']
}

/// A pincode that survives a trip through the stored text: not empty, no
/// whitespace at either end, and no separator inside.
pub open spec fn is_pincode(p: Seq<char>) -> bool {
    &&& p.len() > 0
    &&& !is_blank(p[0])
    &&& !is_blank(p.last())
    &&& forall|i: int| !sep_at(p, pincode_sep(), i)
}

/// The stored text of a sequence of pincodes.
pub open spec fn encode_spec(pincodes: Seq<Seq<char>>) -> Seq<char> {
    join(pincodes, pincode_sep())
}

/// The pieces of stored text between separators, each trimmed.
pub open spec fn trimmed_pieces(text: Seq<char>) -> Seq<Seq<char>> {
    split(text, pincode_sep()).map_values(|p: Seq<char>| trim(p))
}

/// The pincodes read back from stored text: the trimmed pieces between
/// separators, empty pieces dropped and each pincode kept once. The empty
/// text has none.
pub open spec fn decode_spec(text: Seq<char>) -> Seq<Seq<char>> {
    fresh(trimmed_pieces(text), seq![Seq::<char>::empty()])
}

/// `s` with every member of `d` left out, order kept.
pub open spec fn minus(s: Seq<Seq<char>>, d: Seq<Seq<char>>) -> Seq<Seq<char>>
    decreases s.len(),
{
    if s.len() == 0 {
        Seq::empty()
    } else if d.contains(s.last()) {
        minus(s.drop_last(), d)
    } else {
        minus(s.drop_last(), d).push(s.last())
    }
}

/// The members of `n` that `s` lacks, each once, in the order in which they
/// first appear in `n`.
pub open spec fn fresh(n: Seq<Seq<char>>, s: Seq<Seq<char>>) -> Seq<Seq<char>>
    decreases n.len(),
{
    if n.len() == 0 {
        Seq::empty()
    } else {
        let r = fresh(n.drop_last(), s);
        if s.contains(n.last()) || r.contains(n.last()) {
            r
        } else {
            r.push(n.last())
        }
    }
}

/// The pincodes of a merchant after adding `n` to `s`: `s`, then each pincode
/// of `n` that `s` lacks, once.
pub open spec fn with_added(s: Seq<Seq<char>>, n: Seq<Seq<char>>) -> Seq<Seq<char>> {
    s + fresh(n, s)
}

/// What `fresh` keeps: exactly the members of `n` not in `s`, none twice.
pub proof fn lemma_fresh(n: Seq<Seq<char>>, s: Seq<Seq<char>>)
    ensures
        forall|x: Seq<char>| #[trigger]
            fresh(n, s).contains(x) <==> (n.contains(x) && !s.contains(x)),
        fresh(n, s).no_duplicates(),
    decreases n.len(),
{
    if n.len() > 0 {
        let init = n.drop_last();
        let r = fresh(init, s);
        lemma_fresh(init, s);
        let f = fresh(n, s);
        assert forall|x: Seq<char>| #[trigger] f.contains(x) <==> (n.contains(x) && !s.contains(x)) by {
            if n.contains(x) && !s.contains(x) {
                let k = choose|k: int| 0 <= k < n.len() && n[k] == x;
                if k < init.len() {
                    assert(init[k] == x);
                    assert(r.contains(x));
                    let j = choose|j: int| 0 <= j < r.len() && r[j] == x;
                    assert(f[j] == x);
                } else if !r.contains(x) {
                    assert(f[f.len() - 1] == x);
                } else {
                    let j = choose|j: int| 0 <= j < r.len() && r[j] == x;
                    assert(f[j] == x);
                }
            }
            if f.contains(x) {
                let k = choose|k: int| 0 <= k < f.len() && f[k] == x;
                if k < r.len() {
                    assert(r[k] == x);
                    assert(r.contains(x));
                    let j = choose|j: int| 0 <= j < init.len() && init[j] == x;
                    assert(n[j] == x);
                } else {
                    assert(n[n.len() - 1] == x);
                }
            }
        }
        if !(s.contains(n.last()) || r.contains(n.last())) {
            assert forall|i: int, j: int| 0 <= i < f.len() && 0 <= j < f.len() && i != j
                implies f[i] != f[j] by {
                if i < r.len() && j < r.len() {
                    assert(f[i] == r[i] && f[j] == r[j]);
                } else if i < r.len() {
                    assert(f[i] == r[i]);
                    assert(r.contains(f[i]));
                } else if j < r.len() {
                    assert(f[j] == r[j]);
                    assert(r.contains(f[j]));
                }
            }
        }
    }
}

proof fn lemma_trim_pincode(p: Seq<char>)
    requires
        is_pincode(p),
    ensures
        trim(p) == p,
{
    assert(trim_start(p) == p);
    assert(trim_end(p) == p);
}

proof fn lemma_split_join(s: Seq<Seq<char>>)
    requires
        s.len() >= 1,
        forall|i: int| 0 <= i < s.len() ==> is_pincode(#[trigger] s[i]),
    ensures
        split(join(s, pincode_sep()), pincode_sep()) == s,
    decreases s.len(),
{
    let sep = pincode_sep();
    let e = s[0];
    if s.len() == 1 {
        assert(join(s, sep) == e);
        lemma_first_sep_skip(e, sep, e.len() as int);
        assert(first_sep_from(e, sep, e.len() as int) == -1);
        assert(split(e, sep) =~= seq![e]);
    } else {
        lemma_join_front(s, sep);
        let rest = s.drop_first();
        let j = join(rest, sep);
        let x = e + sep + j;
        assert forall|i: int| 0 <= i < e.len() implies !sep_at(x, sep, i) by {
            if i + 1 < e.len() {
                if sep_at(x, sep, i) {
                    assert(x[i] == e[i] && x[i + 1] == e[i + 1]);
                    assert(sep_at(e, sep, i));
                }
            } else {
                assert(x[i + 1] == ',');
            }
        }
        lemma_first_sep_skip(x, sep, e.len() as int);
        assert(sep_at(x, sep, e.len() as int));
        assert(first_sep_from(x, sep, e.len() as int) == e.len());
        assert(x.subrange(0, e.len() as int) =~= e);
        assert(x.subrange(e.len() as int + 2, x.len() as int) =~= j);
        lemma_split_join(rest);
        assert(split(x, sep) =~= seq![e] + rest);
        assert(seq![e] + rest =~= s);
    }
}

proof fn lemma_join_nonempty(s: Seq<Seq<char>>)
    requires
        s.len() >= 1,
        forall|i: int| 0 <= i < s.len() ==> is_pincode(#[trigger] s[i]),
    ensures
        join(s, pincode_sep()).len() > 0,
    decreases s.len(),
{
    if s.len() > 1 {
        lemma_join_nonempty(s.drop_last());
    }
}

proof fn lemma_fresh_keeps(s: Seq<Seq<char>>, d: Seq<Seq<char>>)
    requires
        s.no_duplicates(),
        forall|i: int| 0 <= i < s.len() ==> !d.contains(#[trigger] s[i]),
    ensures
        fresh(s, d) == s,
    decreases s.len(),
{
    if s.len() > 0 {
        let init = s.drop_last();
        assert forall|i: int| 0 <= i < init.len() implies !d.contains(#[trigger] init[i]) by {
            assert(init[i] == s[i]);
        }
        lemma_fresh_keeps(init, d);
        assert(!init.contains(s.last())) by {
            if init.contains(s.last()) {
                let k = choose|k: int| 0 <= k < init.len() && init[k] == s.last();
                assert(s[k] == s[s.len() - 1]);
            }
        }
        assert(!d.contains(s[s.len() - 1]));
        assert(fresh(s, d) =~= s);
    }
}

/// Round trip: the stored text of well-formed pincodes, none twice, decodes
/// to exactly those pincodes, in order.
pub proof fn lemma_decode_encode(s: Seq<Seq<char>>)
    requires
        forall|i: int| 0 <= i < s.len() ==> is_pincode(#[trigger] s[i]),
        s.no_duplicates(),
    ensures
        decode_spec(encode_spec(s)) == s,
{
    let none = seq![Seq::<char>::empty()];
    if s.len() > 0 {
        lemma_split_join(s);
        assert forall|i: int| 0 <= i < s.len() implies trim(s[i]) == s[i] by {
            lemma_trim_pincode(s[i]);
        }
        assert(trimmed_pieces(encode_spec(s)) =~= s);
        assert forall|i: int| 0 <= i < s.len() implies !none.contains(#[trigger] s[i]) by {
            if none.contains(s[i]) {
                assert(none[0].len() == 0);
            }
        }
        lemma_fresh_keeps(s, none);
    } else {
        let e = Seq::<char>::empty();
        assert(encode_spec(s) == e);
        assert(first_sep_from(e, pincode_sep(), 0) == -1);
        assert(split(e, pincode_sep()) == seq![e]);
        assert(trim_start(e) == e);
        assert(trim_end(e) == e);
        assert(trimmed_pieces(e) =~= seq![e]);
        let t = seq![e];
        assert(t.drop_last() =~= Seq::<Seq<char>>::empty());
        assert(fresh(t.drop_last(), none) =~= Seq::<Seq<char>>::empty());
        assert(none.contains(t.last())) by {
            assert(none[0] == t.last());
        }
        assert(decode_spec(encode_spec(s)) =~= s);
    }
}

/// Whatever the stored text, its decoded pincodes are well-formed and none
/// comes twice.
pub proof fn lemma_decode_well_formed(text: Seq<char>)
    ensures
        forall|i: int| 0 <= i < decode_spec(text).len() ==> is_pincode(#[trigger] decode_spec(text)[i]),
        decode_spec(text).no_duplicates(),
{
    let none = seq![Seq::<char>::empty()];
    let pieces = split(text, pincode_sep());
    let tp = trimmed_pieces(text);
    let r = decode_spec(text);
    lemma_fresh(tp, none);
    lemma_split_pieces(text, pincode_sep());
    assert forall|i: int| 0 <= i < r.len() implies is_pincode(#[trigger] r[i]) by {
        assert(r.contains(r[i]));
        let k = choose|k: int| 0 <= k < tp.len() && tp[k] == r[i];
        assert(tp[k] == trim(pieces[k]));
        assert(forall|m: int| !sep_at(pieces[k], pincode_sep(), m));
        lemma_trim_clean(pieces[k], pincode_sep());
        if r[i].len() == 0 {
            assert(r[i] =~= none[0]);
            assert(none.contains(r[i]));
        }
    }
}

/// What `minus` keeps: the members of `s` that are not in `d`, each once if
/// `s` had each once, and all of `s` exactly when nothing was dropped.
pub proof fn lemma_minus(s: Seq<Seq<char>>, d: Seq<Seq<char>>)
    ensures
        forall|x: Seq<char>| #[trigger]
            minus(s, d).contains(x) <==> (s.contains(x) && !d.contains(x)),
        minus(s, d).len() <= s.len(),
        minus(s, d).len() == s.len() <==> minus(s, d) == s,
        minus(s, d) == s <==> (forall|i: int| 0 <= i < s.len() ==> !d.contains(#[trigger] s[i])),
        s.no_duplicates() ==> minus(s, d).no_duplicates(),
    decreases s.len(),
{
    if s.len() > 0 {
        let init = s.drop_last();
        lemma_minus(init, d);
        assert(s =~= init.push(s.last()));
        assert forall|x: Seq<char>| #[trigger]
            minus(s, d).contains(x) <==> (s.contains(x) && !d.contains(x)) by {
            if s.contains(x) && !d.contains(x) {
                let k = choose|k: int| 0 <= k < s.len() && s[k] == x;
                if k < init.len() {
                    assert(init[k] == x);
                    assert(init.contains(x));
                    assert(minus(init, d).contains(x));
                    if !d.contains(s.last()) {
                        let k2 = choose|k2: int|
                            0 <= k2 < minus(init, d).len() && minus(init, d)[k2] == x;
                        assert(minus(s, d)[k2] == x);
                    }
                } else {
                    assert(minus(s, d)[minus(s, d).len() - 1] == x);
                }
            }
            if minus(s, d).contains(x) {
                let k = choose|k: int| 0 <= k < minus(s, d).len() && minus(s, d)[k] == x;
                if d.contains(s.last()) || k < minus(init, d).len() {
                    assert(minus(init, d)[k] == x);
                    assert(minus(init, d).contains(x));
                    let k2 = choose|k2: int| 0 <= k2 < init.len() && init[k2] == x;
                    assert(s[k2] == x);
                } else {
                    assert(x == s.last());
                    assert(s[s.len() - 1] == x);
                }
            }
        }
        if d.contains(s.last()) {
            assert(minus(s, d) != s) by {
                if minus(s, d) == s {
                    assert(minus(s, d).len() <= init.len());
                }
            }
        } else {
            if minus(s, d) == s {
                assert(minus(init, d) =~= init) by {
                    assert(minus(init, d) =~= minus(s, d).drop_last());
                }
            }
            if minus(init, d) == init {
                assert(minus(s, d) =~= s);
            }
            if s.no_duplicates() {
                assert(!init.contains(s.last())) by {
                    if init.contains(s.last()) {
                        let k = choose|k: int| 0 <= k < init.len() && init[k] == s.last();
                        assert(s[k] == s[s.len() - 1]);
                    }
                }
                let m = minus(s, d);
                let mi = minus(init, d);
                assert(!mi.contains(s.last()));
                assert forall|i: int, j: int| 0 <= i < m.len() && 0 <= j < m.len() && i != j
                    implies m[i] != m[j] by {
                    if i < mi.len() && j < mi.len() {
                        assert(m[i] == mi[i] && m[j] == mi[j]);
                    } else if i < mi.len() {
                        assert(m[i] == mi[i]);
                        assert(mi.contains(m[i]));
                    } else if j < mi.len() {
                        assert(m[j] == mi[j]);
                        assert(mi.contains(m[j]));
                    }
                }
            }
        }
        if minus(s, d) == s {
            assert forall|i: int| 0 <= i < s.len() implies !d.contains(#[trigger] s[i]) by {
                assert(minus(s, d).contains(s[i]));
            }
        }
        if forall|i: int| 0 <= i < s.len() ==> !d.contains(#[trigger] s[i]) {
            assert(forall|i: int| 0 <= i < init.len() ==> !d.contains(#[trigger] init[i])) by {
                assert forall|i: int| 0 <= i < init.len() implies !d.contains(#[trigger] init[i]) by {
                    assert(init[i] == s[i]);
                }
            }
            assert(!d.contains(s[s.len() - 1]));
            assert(minus(s, d) =~= s);
        }
    } else {
        assert(minus(s, d) =~= s);
    }
}

/// Adding pincodes keeps every pincode the merchant had, gains every new one,
/// and repeats none; the stored text reads back as that list.
pub proof fn lemma_add_pincodes(text: Seq<char>, n: Seq<Seq<char>>)
    requires
        forall|i: int| 0 <= i < n.len() ==> is_pincode(#[trigger] n[i]),
    ensures
        ({
            let s = decode_spec(text);
            let r = decode_spec(encode_spec(with_added(s, n)));
            &&& forall|p: Seq<char>| s.contains(p) ==> #[trigger] r.contains(p)
            &&& forall|p: Seq<char>| n.contains(p) && !s.contains(p) ==> #[trigger] r.contains(p)
            &&& r.no_duplicates()
        }),
{
    let s = decode_spec(text);
    lemma_decode_well_formed(text);
    lemma_fresh(n, s);
    let u = fresh(n, s);
    let a = with_added(s, n);
    assert forall|i: int| 0 <= i < a.len() implies is_pincode(#[trigger] a[i]) by {
        if i >= s.len() {
            assert(u.contains(a[i]));
            let k = choose|k: int| 0 <= k < n.len() && n[k] == a[i];
            assert(is_pincode(n[k]));
        }
    }
    assert forall|p: Seq<char>| s.contains(p) implies #[trigger] a.contains(p) by {
        let k = choose|k: int| 0 <= k < s.len() && s[k] == p;
        assert(a[k] == p);
    }
    assert forall|p: Seq<char>| n.contains(p) && !s.contains(p) implies #[trigger] a.contains(p) by {
        assert(fresh(n, s).contains(p));
        let k = choose|k: int| 0 <= k < u.len() && u[k] == p;
        assert(a[s.len() + k] == p);
    }
    assert forall|i: int, j: int| 0 <= i < a.len() && 0 <= j < a.len() && i != j implies a[i]
        != a[j] by {
        if i < s.len() && j >= s.len() {
            assert(u.contains(a[j]));
            assert(s.contains(a[i]));
        } else if j < s.len() && i >= s.len() {
            assert(u.contains(a[i]));
            assert(s.contains(a[j]));
        } else if i >= s.len() && j >= s.len() {
            assert(a[i] == u[i - s.len()] && a[j] == u[j - s.len()]);
        }
    }
    lemma_decode_encode(a);
}

/// Removing pincodes leaves exactly those the merchant had that were not
/// removed, and the stored text reads back as that list. Nothing changes
/// exactly when none of the merchant's pincodes was asked for.
pub proof fn lemma_remove_pincodes(text: Seq<char>, d: Seq<Seq<char>>)
    ensures
        ({
            let s = decode_spec(text);
            &&& decode_spec(encode_spec(minus(s, d))) == minus(s, d)
            &&& minus(s, d).to_set() == s.to_set().difference(d.to_set())
            &&& minus(s, d) == s <==> s.to_set().intersect(d.to_set()).is_empty()
        }),
{
    let s = decode_spec(text);
    lemma_decode_well_formed(text);
    lemma_minus(s, d);
    let r = minus(s, d);
    assert forall|i: int| 0 <= i < r.len() implies is_pincode(#[trigger] r[i]) by {
        assert(r.contains(r[i]));
        let k = choose|k: int| 0 <= k < s.len() && s[k] == r[i];
        assert(is_pincode(s[k]));
    }
    lemma_decode_encode(r);
    assert(r.to_set() =~= s.to_set().difference(d.to_set()));
    if r == s {
        assert(s.to_set().intersect(d.to_set()) =~= Set::empty());
    }
    if s.to_set().intersect(d.to_set()).is_empty() {
        assert forall|i: int| 0 <= i < s.len() implies !d.contains(#[trigger] s[i]) by {
            if d.contains(s[i]) {
                assert(s.to_set().intersect(d.to_set()).contains(s[i]));
            }
        }
    }
}

/// Whether `v` holds a string equal to `x`.
pub fn contains_pincode(v: &Vec<String>, x: &String) -> (r: bool)
    ensures
        r == views(v@).contains(x@),
{
    let mut i: usize = 0;
    while i < v.len()
        invariant
            i <= v@.len(),
            forall|k: int| 0 <= k < i ==> v@[k]@ != x@,
        decreases v@.len() - i,
    {
        if v[i] == *x {
            assert(views(v@)[i as int] == x@);
            return true;
        }
        i = i + 1;
    }
    assert(!views(v@).contains(x@)) by {
        if views(v@).contains(x@) {
            let k = choose|k: int| 0 <= k < views(v@).len() && views(v@)[k] == x@;
            assert(v@[k]@ == x@);
        }
    }
    false
}

/// The members of `s` that are not in `d`, order kept.
pub fn without(s: &Vec<String>, d: &Vec<String>) -> (r: Vec<String>)
    ensures
        views(r@) == minus(views(s@), views(d@)),
{
    let ghost sv = views(s@);
    let ghost dv = views(d@);
    let mut r: Vec<String> = Vec::new();
    let mut i: usize = 0;
    assert(sv.take(0) =~= Seq::<Seq<char>>::empty());
    assert(views(r@) =~= Seq::<Seq<char>>::empty());
    while i < s.len()
        invariant
            i <= s@.len(),
            sv == views(s@),
            dv == views(d@),
            views(r@) == minus(sv.take(i as int), dv),
        decreases s@.len() - i,
    {
        assert(sv.take(i + 1).drop_last() =~= sv.take(i as int));
        assert(sv.take(i + 1).last() == s@[i as int]@);
        if !contains_pincode(d, &s[i]) {
            let ghost before = r@;
            r.push(s[i].clone());
            assert(views(r@) =~= views(before).push(s@[i as int]@));
        }
        i = i + 1;
    }
    assert(sv.take(s@.len() as int) =~= sv);
    r
}

/// The members of `n` that `s` lacks, each once, in order of first appearance.
pub fn new_pincodes(n: &Vec<String>, s: &Vec<String>) -> (r: Vec<String>)
    ensures
        views(r@) == fresh(views(n@), views(s@)),
{
    let ghost nv = views(n@);
    let ghost sv = views(s@);
    let mut r: Vec<String> = Vec::new();
    let mut i: usize = 0;
    assert(nv.take(0) =~= Seq::<Seq<char>>::empty());
    assert(views(r@) =~= Seq::<Seq<char>>::empty());
    while i < n.len()
        invariant
            i <= n@.len(),
            nv == views(n@),
            sv == views(s@),
            views(r@) == fresh(nv.take(i as int), sv),
        decreases n@.len() - i,
    {
        assert(nv.take(i + 1).drop_last() =~= nv.take(i as int));
        assert(nv.take(i + 1).last() == n@[i as int]@);
        if !contains_pincode(s, &n[i]) && !contains_pincode(&r, &n[i]) {
            let ghost before = r@;
            r.push(n[i].clone());
            assert(views(r@) =~= views(before).push(n@[i as int]@));
        }
        i = i + 1;
    }
    assert(nv.take(n@.len() as int) =~= nv);
    r
}

/// The stored text of `pincodes`: the members joined by a comma and a space.
pub fn encode(pincodes: &Vec<String>) -> (r: String)
    ensures
        r@ == encode_spec(views(pincodes@)),
{
    let ghost pv = views(pincodes@);
    let mut r = String::new();
    if pincodes.len() == 0 {
        assert(pv =~= Seq::<Seq<char>>::empty());
        return r;
    }
    push_all(&mut r, pincodes[0].as_str());
    let mut i: usize = 1;
    assert(pv.take(1) =~= seq![pv[0]]);
    while i < pincodes.len()
        invariant
            1 <= i <= pincodes@.len(),
            pv == views(pincodes@),
            r@ == join(pv.take(i as int), pincode_sep()),
        decreases pincodes@.len() - i,
    {
        proof {
            reveal_strlit(", ");
        }
        push_all(&mut r, ", ");
        push_all(&mut r, pincodes[i].as_str());
        assert(pv.take(i + 1).drop_last() =~= pv.take(i as int));
        i = i + 1;
    }
    assert(pv.take(pincodes@.len() as int) =~= pv);
    r
}

/// The pincodes in stored text: the trimmed pieces between separators, empty
/// ones dropped, each pincode once.
pub fn decode(text: &str) -> (r: Vec<String>)
    ensures
        views(r@) == decode_spec(text@),
{
    proof {
        reveal_strlit(", ");
    }
    assert(", "@ =~= pincode_sep());
    let pieces = split_on(text, ", ");
    let trimmed = trim_each(&pieces);
    let mut none: Vec<String> = Vec::new();
    none.push(String::new());
    assert(views(none@) =~= seq![Seq::<char>::empty()]);
    new_pincodes(&trimmed, &none)
}

/// Whether `p` is a well-formed pincode.
pub fn is_valid_pincode(p: &str) -> (r: bool)
    ensures
        r == is_pincode(p@),
{
    let n = p.unicode_len();
    if n == 0 || is_blank_char(p.get_char(0)) || is_blank_char(p.get_char(n - 1)) {
        return false;
    }
    proof {
        reveal_strlit(", ");
    }
    assert(", "@ =~= pincode_sep());
    let mut i: usize = 0;
    while i < n
        invariant
            n == p@.len(),
            i <= n,
            ", "@ == pincode_sep(),
            forall|k: int| 0 <= k < i ==> !sep_at(p@, pincode_sep(), k),
        decreases n - i,
    {
        if has_sep_at(p, ", ", i) {
            assert(sep_at(p@, pincode_sep(), i as int));
            return false;
        }
        i = i + 1;
    }
    assert forall|k: int| !sep_at(p@, pincode_sep(), k) by {
        if 0 <= k < n as int {
        }
    }
    true
}

/// Whether every member of `v` is a well-formed pincode.
pub fn all_valid_pincodes(v: &Vec<String>) -> (r: bool)
    ensures
        r == (forall|i: int| 0 <= i < v@.len() ==> is_pincode(#[trigger] v@[i]@)),
{
    let mut i: usize = 0;
    while i < v.len()
        invariant
            i <= v@.len(),
            forall|k: int| 0 <= k < i ==> is_pincode(#[trigger] v@[k]@),
        decreases v@.len() - i,
    {
        if !is_valid_pincode(v[i].as_str()) {
            return false;
        }
        i = i + 1;
    }
    true
}

} // verus!
