//! What is gathered across the installed workshops: those that offer the chosen languages, and
//! every spoken and programming language any of them offers.

use crate::languages::{programming, spoken};
use crate::models::workshop::{
    has_key, keys, map_view, offers_programming, selected_by, LanguageEntry, LanguageMap, Loader,
    LoaderView, WorkshopData, WorkshopDataView,
};
use crate::models::{Error, ErrorView};
use crate::text::copy_vec;
use vstd::prelude::*;

verus! {

/// Workshops by value.
pub open spec fn workshops_view(v: Seq<WorkshopData>) -> Seq<WorkshopDataView> {
    Seq::new(v.len(), |i: int| v[i]@)
}

/// The workshops that offer the chosen languages, in order.
pub open spec fn selected_workshops(
    s: Seq<WorkshopDataView>,
    spoken_language: Option<spoken::Code>,
    programming_language: Option<programming::Code>,
) -> Seq<WorkshopDataView>
    decreases s.len(),
{
    if s.len() == 0 {
        Seq::empty()
    } else {
        let init = selected_workshops(s.drop_last(), spoken_language, programming_language);
        if selected_by(s.last(), spoken_language, programming_language) {
            init.push(s.last())
        } else {
            init
        }
    }
}

/// Filtering keeps only workshops that were there and that offer the chosen languages, in
/// the order they came, so it never lengthens the list; with no language chosen it keeps
/// every workshop.
pub proof fn lemma_filter_subset(
    s: Seq<WorkshopDataView>,
    spoken_language: Option<spoken::Code>,
    programming_language: Option<programming::Code>,
)
    ensures
        selected_workshops(s, spoken_language, programming_language).len() <= s.len(),
        forall|w: WorkshopDataView|
            #[trigger] selected_workshops(s, spoken_language, programming_language).contains(w)
                ==> s.contains(w) && selected_by(w, spoken_language, programming_language),
        forall|w: WorkshopDataView|
            s.contains(w) && selected_by(w, spoken_language, programming_language)
                ==> #[trigger] selected_workshops(s, spoken_language, programming_language).contains(w),
        selected_workshops(s, None, None) == s,
    decreases s.len(),
{
    if s.len() > 0 {
        let init = s.drop_last();
        lemma_filter_subset(init, spoken_language, programming_language);
        let r = selected_workshops(s, spoken_language, programming_language);
        let ri = selected_workshops(init, spoken_language, programming_language);
        assert forall|w: WorkshopDataView| #[trigger] r.contains(w) implies s.contains(w) && selected_by(
            w,
            spoken_language,
            programming_language,
        ) by {
            let k = choose|k: int| 0 <= k < r.len() && r[k] == w;
            if k < ri.len() {
                assert(ri[k] == w);
                assert(ri.contains(w));
                let m = choose|m: int| 0 <= m < init.len() && init[m] == w;
                assert(s[m] == w);
            } else {
                assert(s[s.len() - 1] == w);
            }
        }
        assert forall|w: WorkshopDataView|
            s.contains(w) && selected_by(w, spoken_language, programming_language) implies #[trigger] r.contains(w) by {
            let k = choose|k: int| 0 <= k < s.len() && s[k] == w;
            if k < init.len() {
                assert(init[k] == w);
                assert(init.contains(w));
                assert(ri.contains(w));
                let m = choose|m: int| 0 <= m < ri.len() && ri[m] == w;
                assert(r[m] == w);
            } else {
                assert(r[r.len() - 1] == w);
            }
        }
        assert(selected_workshops(s, None, None) =~= s) by {
            assert(selected_by(s.last(), None, None));
            assert(init.push(s.last()) =~= s);
        }
    } else {
        assert(selected_workshops(s, None, None) =~= s);
    }
}

/// Some workshop offers a spoken language.
pub open spec fn some_offers_spoken(s: Seq<WorkshopDataView>, c: spoken::Code) -> bool {
    exists|i: int| 0 <= i < s.len() && #[trigger] keys(s[i].setup_instructions).contains(c)
}

/// Some workshop offers a programming language.
pub open spec fn some_offers_programming(s: Seq<WorkshopDataView>, p: programming::Code) -> bool {
    exists|i: int| 0 <= i < s.len() && #[trigger] offers_programming(s[i].setup_instructions, p)
}

/// The workshops that offer the chosen languages.
pub fn all_workshops_filtered(
    workshops: Vec<WorkshopData>,
    spoken_language: Option<spoken::Code>,
    programming_language: Option<programming::Code>,
) -> (r: Vec<WorkshopData>)
    ensures
        workshops_view(r@) == selected_workshops(
            workshops_view(workshops@),
            spoken_language,
            programming_language,
        ),
{
    let ghost all = workshops_view(workshops@);
    let mut workshops = workshops;
    let n = workshops.len();
    let mut r: Vec<WorkshopData> = Vec::new();
    let mut k: usize = 0;
    proof {
        assert(all.take(0) =~= Seq::<WorkshopDataView>::empty());
        assert(workshops_view(r@) =~= Seq::<WorkshopDataView>::empty());
        assert(workshops_view(workshops@).skip(0) =~= all);
    }
    while k < n
        invariant
            k <= n,
            n == all.len(),
            workshops@.len() == n - k,
            workshops_view(workshops@) == all.skip(k as int),
            workshops_view(r@) == selected_workshops(
                all.take(k as int),
                spoken_language,
                programming_language,
            ),
        decreases n - k,
    {
        let ghost before = workshops@;
        let w = workshops.remove(0);
        proof {
            assert(w == before[0]);
            assert(w@ == workshops_view(before)[0]);
            assert(workshops_view(before)[0] == all[k as int]);
            assert forall|j: int| 0 <= j < workshops@.len() implies #[trigger] workshops@[j]@ == all[k + 1 + j] by {
                assert(workshops@[j] == before[j + 1]);
                assert(workshops_view(before)[j + 1] == all.skip(k as int)[j + 1]);
            }
            assert(workshops_view(workshops@) =~= all.skip(k + 1));
            let t = all.take(k + 1);
            assert(t.drop_last() =~= all.take(k as int));
            assert(t.last() == w@);
        }
        if w.is_selected(spoken_language, programming_language) {
            let ghost rb = r@;
            r.push(w);
            proof {
                assert(workshops_view(r@) =~= workshops_view(rb).push(w@));
            }
        }
        k = k + 1;
    }
    proof {
        assert(all.take(n as int) =~= all);
    }
    r
}

/// Every spoken language the workshops offer, in order and each once.
pub fn all_spoken_languages(workshops: &Vec<WorkshopData>) -> (r: Vec<spoken::Code>)
    ensures
        spoken::strictly_sorted(r@),
        forall|c: spoken::Code| r@.contains(c) <==> some_offers_spoken(
            workshops_view(workshops@),
            c,
        ),
        r@ == spoken_list(workshops_view(workshops@)),
{
    let ghost ws = workshops_view(workshops@);
    let mut all: Vec<spoken::Code> = Vec::new();
    let mut i: usize = 0;
    while i < workshops.len()
        invariant
            i <= workshops.len(),
            ws == workshops_view(workshops@),
            forall|c: spoken::Code| all@.contains(c) <==> exists|j: int|
                0 <= j < i && #[trigger] keys(ws[j].setup_instructions).contains(c),
        decreases workshops.len() - i,
    {
        let langs = workshops[i].get_all_spoken_languages();
        let ghost before = all@;
        let mut more = langs;
        let ghost added = more@;
        all.append(&mut more);
        proof {
            assert(ws[i as int] == workshops@[i as int]@);
            assert forall|c: spoken::Code| all@.contains(c) <==> exists|j: int|
                0 <= j < i + 1 && #[trigger] keys(ws[j].setup_instructions).contains(c) by {
                if all@.contains(c) {
                    let t = choose|t: int| 0 <= t < all@.len() && all@[t] == c;
                    if t >= before.len() {
                        assert(added[t - before.len()] == c);
                        assert(keys(ws[i as int].setup_instructions).contains(c));
                    } else {
                        assert(before[t] == c);
                        assert(before.contains(c));
                    }
                }
                if exists|j: int|
                    0 <= j < i + 1 && #[trigger] keys(ws[j].setup_instructions).contains(c) {
                    let j = choose|j: int|
                        0 <= j < i + 1 && #[trigger] keys(ws[j].setup_instructions).contains(c);
                    if j == i {
                        let t = choose|t: int| 0 <= t < added.len() && added[t] == c;
                        assert(all@[before.len() + t] == c);
                    } else {
                        assert(before.contains(c));
                        let t = choose|t: int| 0 <= t < before.len() && before[t] == c;
                        assert(all@[t] == c);
                    }
                }
            }
        }
        i = i + 1;
    }
    let r = spoken::sort_dedup(&all);
    proof {
        lemma_spoken_list(ws, r@);
    }
    r
}

/// Every programming language the workshops offer, in order and each once.
pub fn all_programming_languages(workshops: &Vec<WorkshopData>) -> (r: Vec<programming::Code>)
    ensures
        programming::strictly_sorted(r@),
        forall|p: programming::Code| r@.contains(p) <==> some_offers_programming(
            workshops_view(workshops@),
            p,
        ),
        r@ == programming_list(workshops_view(workshops@)),
{
    let ghost ws = workshops_view(workshops@);
    let mut all: Vec<programming::Code> = Vec::new();
    let mut i: usize = 0;
    while i < workshops.len()
        invariant
            i <= workshops.len(),
            ws == workshops_view(workshops@),
            forall|p: programming::Code| all@.contains(p) <==> exists|j: int|
                0 <= j < i && #[trigger] offers_programming(ws[j].setup_instructions, p),
        decreases workshops.len() - i,
    {
        let langs = workshops[i].get_all_programming_languages();
        let ghost before = all@;
        let mut more = langs;
        let ghost added = more@;
        all.append(&mut more);
        proof {
            assert(ws[i as int] == workshops@[i as int]@);
            assert forall|p: programming::Code| all@.contains(p) <==> exists|j: int|
                0 <= j < i + 1 && #[trigger] offers_programming(ws[j].setup_instructions, p) by {
                if all@.contains(p) {
                    let t = choose|t: int| 0 <= t < all@.len() && all@[t] == p;
                    if t >= before.len() {
                        assert(added[t - before.len()] == p);
                        assert(added.contains(p));
                    } else {
                        assert(before[t] == p);
                        assert(before.contains(p));
                    }
                }
                if exists|j: int|
                    0 <= j < i + 1 && #[trigger] offers_programming(ws[j].setup_instructions, p) {
                    let j = choose|j: int|
                        0 <= j < i + 1 && #[trigger] offers_programming(ws[j].setup_instructions, p);
                    if j == i {
                        assert(added.contains(p));
                        let t = choose|t: int| 0 <= t < added.len() && added[t] == p;
                        assert(all@[before.len() + t] == p);
                    } else {
                        assert(before.contains(p));
                        let t = choose|t: int| 0 <= t < before.len() && before[t] == p;
                        assert(all@[t] == p);
                    }
                }
            }
        }
        i = i + 1;
    }
    let r = programming::sort_dedup(&all);
    proof {
        lemma_programming_list(ws, r@);
    }
    r
}

/// Some entry of `e` offers the programming language `p` in the spoken language `s`.
pub open spec fn offered(e: LanguageMap, s: spoken::Code, p: programming::Code) -> bool {
    exists|k: int| 0 <= k < e.len() && e[k].0 == s && #[trigger] e[k].1.contains(p)
}

/// `r` gathers the entries `e`: one entry for each spoken language of `e`, holding every
/// programming language that some entry of `e` offers in it.
pub open spec fn merges(r: LanguageMap, e: LanguageMap) -> bool {
    &&& forall|a: int, b: int| 0 <= a < b < r.len() ==> r[a].0 != r[b].0
    &&& forall|s: spoken::Code| has_key(r, s) <==> has_key(e, s)
    &&& forall|a: int, p: programming::Code|
        0 <= a < r.len() ==> (#[trigger] r[a].1.contains(p) <==> offered(e, r[a].0, p))
}

/// More than one of the entries is for the spoken language.
pub open spec fn shared(e: LanguageMap, s: spoken::Code) -> bool {
    exists|i: int, j: int| 0 <= i < j < e.len() && #[trigger] e[i].0 == s && #[trigger] e[j].0 == s
}

/// Each entry of `r` that more than one entry of `e` was merged into lists its programming
/// languages in order.
pub open spec fn merged_sorted(r: LanguageMap, e: LanguageMap) -> bool {
    forall|a: int| 0 <= a < r.len() && shared(e, #[trigger] r[a].0) ==> programming::strictly_sorted(r[a].1)
}

/// An entry for another spoken language than the one added is shared after it exactly when
/// it was before.
proof fn lemma_shared_push(e: LanguageMap, x: (spoken::Code, Seq<programming::Code>), t: spoken::Code)
    requires
        t != x.0,
    ensures
        shared(e.push(x), t) == shared(e, t),
{
    let f = e.push(x);
    if shared(f, t) {
        let (i, j) = choose|i: int, j: int| 0 <= i < j < f.len() && #[trigger] f[i].0 == t && #[trigger] f[j].0 == t;
        assert(j < e.len());
        assert(e[i].0 == t && e[j].0 == t);
    }
    if shared(e, t) {
        let (i, j) = choose|i: int, j: int| 0 <= i < j < e.len() && #[trigger] e[i].0 == t && #[trigger] e[j].0 == t;
        assert(f[i].0 == t && f[j].0 == t);
    }
}

/// Each entry lists a programming language at most once.
pub open spec fn each_once(r: LanguageMap) -> bool {
    forall|a: int, i: int, j: int|
        0 <= a < r.len() && 0 <= i < j < r[a].1.len() ==> #[trigger] r[a].1[i] != #[trigger] r[a].1[j]
}

/// The codes of a list, each once, where it first occurs.
fn distinct(ps: &Vec<programming::Code>) -> (r: Vec<programming::Code>)
    ensures
        forall|i: int, j: int| 0 <= i < j < r@.len() ==> r@[i] != r@[j],
        forall|c: programming::Code| r@.contains(c) <==> ps@.contains(c),
{
    let mut r: Vec<programming::Code> = Vec::new();
    let mut i: usize = 0;
    while i < ps.len()
        invariant
            i <= ps.len(),
            forall|a: int, b: int| 0 <= a < b < r@.len() ==> r@[a] != r@[b],
            forall|c: programming::Code| r@.contains(c) <==> ps@.take(i as int).contains(c),
        decreases ps.len() - i,
    {
        let c = ps[i];
        let ghost t0 = ps@.take(i as int);
        let ghost t1 = ps@.take(i + 1);
        proof {
            assert(t1 =~= t0.push(c));
        }
        if !programming::contains_code(&r, c) {
            let ghost r0 = r@;
            r.push(c);
            proof {
                assert forall|x: programming::Code| r@.contains(x) <==> t1.contains(x) by {
                    if r@.contains(x) {
                        let k = choose|k: int| 0 <= k < r@.len() && r@[k] == x;
                        if k < r0.len() {
                            assert(r0[k] == x);
                            assert(r0.contains(x));
                            let m = choose|m: int| 0 <= m < i && t0[m] == x;
                            assert(t1[m] == x);
                        } else {
                            assert(t1[i as int] == x);
                        }
                    }
                    if t1.contains(x) {
                        let k = choose|k: int| 0 <= k < i + 1 && t1[k] == x;
                        if k < i {
                            assert(t0[k] == x);
                            assert(r0.contains(x));
                            let m = choose|m: int| 0 <= m < r0.len() && r0[m] == x;
                            assert(r@[m] == x);
                        } else {
                            assert(r@[r@.len() - 1] == x);
                        }
                    }
                }
                assert forall|a: int, b: int| 0 <= a < b < r@.len() implies r@[a] != r@[b] by {
                    if b == r0.len() {
                        assert(r0[a] == r@[a]);
                        if r@[a] == c {
                            assert(r0.contains(c));
                        }
                    } else {
                        assert(r0[a] != r0[b]);
                    }
                }
            }
        } else {
            proof {
                assert forall|x: programming::Code| r@.contains(x) <==> t1.contains(x) by {
                    if t1.contains(x) {
                        let k = choose|k: int| 0 <= k < i + 1 && t1[k] == x;
                        if k < i {
                            assert(t0[k] == x);
                        }
                    }
                    if t0.contains(x) {
                        let k = choose|k: int| 0 <= k < i && t0[k] == x;
                        assert(t1[k] == x);
                    }
                }
            }
        }
        i = i + 1;
    }
    proof {
        assert(ps@.take(ps.len() as int) =~= ps@);
    }
    r
}

/// The entries of all the workshops, one workshop after the other.
pub open spec fn all_entries(ws: Seq<WorkshopDataView>) -> LanguageMap
    decreases ws.len(),
{
    if ws.len() == 0 {
        Seq::empty()
    } else {
        all_entries(ws.drop_last()) + ws.last().setup_instructions
    }
}

proof fn lemma_push_entry(e: LanguageMap, x: (spoken::Code, Seq<programming::Code>))
    ensures
        forall|t: spoken::Code| has_key(e.push(x), t) <==> (has_key(e, t) || x.0 == t),
        forall|t: spoken::Code, p: programming::Code|
            offered(e.push(x), t, p) <==> (offered(e, t, p) || (x.0 == t && x.1.contains(p))),
{
    let f = e.push(x);
    assert forall|t: spoken::Code| has_key(f, t) <==> (has_key(e, t) || x.0 == t) by {
        if has_key(f, t) {
            let k = choose|k: int| 0 <= k < f.len() && f[k].0 == t;
            if k < e.len() {
                assert(e[k].0 == t);
            }
        }
        if has_key(e, t) {
            let k = choose|k: int| 0 <= k < e.len() && e[k].0 == t;
            assert(f[k].0 == t);
        }
        if x.0 == t {
            assert(f[e.len() as int].0 == t);
        }
    }
    assert forall|t: spoken::Code, p: programming::Code|
        offered(f, t, p) <==> (offered(e, t, p) || (x.0 == t && x.1.contains(p))) by {
        if offered(f, t, p) {
            let k = choose|k: int| 0 <= k < f.len() && f[k].0 == t && #[trigger] f[k].1.contains(p);
            if k < e.len() {
                assert(e[k].0 == t && e[k].1.contains(p));
            }
        }
        if offered(e, t, p) {
            let k = choose|k: int| 0 <= k < e.len() && e[k].0 == t && #[trigger] e[k].1.contains(p);
            assert(f[k].0 == t && f[k].1.contains(p));
        }
        if x.0 == t && x.1.contains(p) {
            assert(f[e.len() as int].1.contains(p));
        }
    }
}

/// Adds the programming languages `ps` of the spoken language `s` to the gathered entries.
fn add_entry(
    r: &mut Vec<LanguageEntry>,
    s: spoken::Code,
    ps: &Vec<programming::Code>,
    Ghost(e): Ghost<LanguageMap>,
)
    requires
        merges(map_view(old(r)@), e),
        each_once(map_view(old(r)@)),
        merged_sorted(map_view(old(r)@), e),
    ensures
        merges(map_view(final(r)@), e.push((s, ps@))),
        each_once(map_view(final(r)@)),
        merged_sorted(map_view(final(r)@), e.push((s, ps@))),
{
    proof {
        lemma_push_entry(e, (s, ps@));
    }
    let ghost before = map_view(r@);
    let mut i: usize = 0;
    while i < r.len()
        invariant
            i <= r.len(),
            map_view(r@) == before,
            merges(before, e),
            each_once(before),
            merged_sorted(before, e),
            forall|a: int| 0 <= a < i ==> r@[a].0 != s,
        decreases r.len() - i,
    {
        if r[i].0 == s {
            let mut merged = copy_vec(&r[i].1);
            let ghost old_list = merged@;
            let mut more = copy_vec(ps);
            merged.append(&mut more);
            let sorted = programming::sort_dedup(&merged);
            proof {
                assert(before[i as int].1 == old_list);
                assert forall|p: programming::Code| merged@.contains(p) <==> (old_list.contains(p)
                    || ps@.contains(p)) by {
                    if merged@.contains(p) {
                        let x = choose|x: int| 0 <= x < merged@.len() && merged@[x] == p;
                        if x >= old_list.len() {
                            assert(ps@[x - old_list.len()] == p);
                        } else {
                            assert(old_list[x] == p);
                        }
                    }
                    if old_list.contains(p) {
                        let x = choose|x: int| 0 <= x < old_list.len() && old_list[x] == p;
                        assert(merged@[x] == p);
                    }
                    if ps@.contains(p) {
                        let x = choose|x: int| 0 <= x < ps@.len() && ps@[x] == p;
                        assert(merged@[old_list.len() + x] == p);
                    }
                }
                assert(has_key(before, s)) by {
                    assert(before[i as int].0 == s);
                }
            }
            r.set(i, (s, sorted));
            proof {
                lemma_push_entry(e, (s, ps@));
                let after = map_view(r@);
                let f = e.push((s, ps@));
                assert(after =~= before.update(i as int, (s, sorted@)));
                assert forall|a: int, x: int, y: int|
                    0 <= a < after.len() && 0 <= x < y < after[a].1.len() implies #[trigger] after[a].1[x]
                        != #[trigger] after[a].1[y] by {
                    if a == i {
                        assert(programming::code_before(sorted@[x], sorted@[y]));
                    } else {
                        assert(after[a] == before[a]);
                    }
                }
                assert forall|a: int| 0 <= a < after.len() && shared(f, #[trigger] after[a].0) implies programming::strictly_sorted(after[a].1) by {
                    if a != i {
                        assert(after[a] == before[a]);
                        assert(before[a].0 != s);
                        lemma_shared_push(e, (s, ps@), before[a].0);
                    }
                }
                assert forall|t: spoken::Code| has_key(after, t) <==> has_key(f, t) by {
                    if has_key(after, t) {
                        let k = choose|k: int| 0 <= k < after.len() && after[k].0 == t;
                        assert(before[k].0 == t);
                    }
                    if has_key(before, t) {
                        let k = choose|k: int| 0 <= k < before.len() && before[k].0 == t;
                        assert(after[k].0 == t);
                    }
                }
                assert forall|a: int, p: programming::Code| 0 <= a < after.len() implies (
                #[trigger] after[a].1.contains(p) <==> offered(f, after[a].0, p)) by {
                    if a == i {
                        assert(before[a].1.contains(p) <==> offered(e, before[a].0, p));
                    } else {
                        assert(after[a] == before[a]);
                        assert(before[a].0 != s);
                        assert(before[a].1.contains(p) <==> offered(e, before[a].0, p));
                    }
                }
            }
            return ;
        }
        i = i + 1;
    }
    let list = distinct(ps);
    r.push((s, list));
    proof {
        let after = map_view(r@);
        let f = e.push((s, ps@));
        assert(after =~= before.push((s, list@)));
        assert forall|a: int, x: int, y: int|
            0 <= a < after.len() && 0 <= x < y < after[a].1.len() implies #[trigger] after[a].1[x]
                != #[trigger] after[a].1[y] by {
            if a < before.len() {
                assert(after[a] == before[a]);
            }
        }
        assert(!has_key(before, s));
        assert(!has_key(e, s));
        assert forall|a: int| 0 <= a < after.len() && shared(f, #[trigger] after[a].0) implies programming::strictly_sorted(after[a].1) by {
            if a < before.len() {
                assert(after[a] == before[a]);
                assert(before[a].0 != s);
                lemma_shared_push(e, (s, ps@), before[a].0);
            } else {
                assert(after[a].0 == s);
                let (i, j) = choose|i: int, j: int| 0 <= i < j < f.len() && #[trigger] f[i].0 == s && #[trigger] f[j].0 == s;
                assert(e[i].0 == s);
                assert(has_key(e, s));
            }
        }
        assert(!has_key(before, s));
        assert forall|t: spoken::Code| has_key(after, t) <==> has_key(f, t) by {
            if has_key(after, t) {
                let k = choose|k: int| 0 <= k < after.len() && after[k].0 == t;
                if k < before.len() {
                    assert(before[k].0 == t);
                }
            }
            if has_key(before, t) {
                let k = choose|k: int| 0 <= k < before.len() && before[k].0 == t;
                assert(after[k].0 == t);
            }
            if t == s {
                assert(after[before.len() as int].0 == t);
            }
        }
        assert forall|a: int, p: programming::Code| 0 <= a < after.len() implies (
        #[trigger] after[a].1.contains(p) <==> offered(f, after[a].0, p)) by {
            if a < before.len() {
                assert(after[a] == before[a]);
                assert(before[a].1.contains(p) <==> offered(e, before[a].0, p));
            } else {
                assert(!offered(e, s, p)) by {
                    if offered(e, s, p) {
                        let k = choose|k: int| 0 <= k < e.len() && e[k].0 == s && #[trigger] e[k].1.contains(p);
                        assert(has_key(e, s));
                    }
                }
            }
        }
    }
}

/// Every spoken language the workshops offer, once each, with every programming language that
/// some workshop offers in it, once each; a spoken language that more than one entry is merged
/// for has its programming languages in order.
pub fn get_all_languages(workshops: &Vec<WorkshopData>) -> (r: Vec<LanguageEntry>)
    ensures
        merges(map_view(r@), all_entries(workshops_view(workshops@))),
        each_once(map_view(r@)),
        merged_sorted(map_view(r@), all_entries(workshops_view(workshops@))),
{
    let ghost ws = workshops_view(workshops@);
    let mut r: Vec<LanguageEntry> = Vec::new();
    let mut i: usize = 0;
    proof {
        assert(ws.take(0) =~= Seq::<WorkshopDataView>::empty());
        assert(map_view(r@) =~= Seq::<(spoken::Code, Seq<programming::Code>)>::empty());
    }
    while i < workshops.len()
        invariant
            i <= workshops.len(),
            ws == workshops_view(workshops@),
            merges(map_view(r@), all_entries(ws.take(i as int))),
            each_once(map_view(r@)),
            merged_sorted(map_view(r@), all_entries(ws.take(i as int))),
        decreases workshops.len() - i,
    {
        let m = workshops[i].get_languages();
        let ghost base = all_entries(ws.take(i as int));
        let mut k: usize = 0;
        proof {
            assert(base + map_view(m@).take(0) =~= base);
        }
        while k < m.len()
            invariant
                k <= m.len(),
                merges(map_view(r@), base + map_view(m@).take(k as int)),
                each_once(map_view(r@)),
                merged_sorted(map_view(r@), base + map_view(m@).take(k as int)),
            decreases m.len() - k,
        {
            let ghost e = base + map_view(m@).take(k as int);
            add_entry(&mut r, m[k].0, &m[k].1, Ghost(e));
            proof {
                assert(e.push((m@[k as int].0, m@[k as int].1@)) =~= base + map_view(m@).take(
                    k + 1,
                ));
            }
            k = k + 1;
        }
        proof {
            assert(ws[i as int] == workshops@[i as int]@);
            assert(ws.take(i + 1).drop_last() =~= ws.take(i as int));
            assert(map_view(m@).take(m.len() as int) =~= map_view(m@));
            assert(all_entries(ws.take(i + 1)) == base + map_view(m@));
        }
        i = i + 1;
    }
    proof {
        assert(ws.take(workshops.len() as int) =~= ws);
    }
    r
}

/// Two strictly sorted lists of spoken languages that hold the same languages are the same list.
pub proof fn lemma_spoken_sorted_unique(a: Seq<spoken::Code>, b: Seq<spoken::Code>)
    requires
        spoken::strictly_sorted(a),
        spoken::strictly_sorted(b),
        forall|c: spoken::Code| a.contains(c) <==> b.contains(c),
    ensures
        a == b,
    decreases a.len(),
{
    if a.len() == 0 {
        if b.len() > 0 {
            assert(b.contains(b[0]));
        }
        assert(a =~= b);
    } else {
        assert(a.contains(a[0]));
        assert(b.len() > 0);
        assert(b.contains(b[0]));
        let j = choose|j: int| 0 <= j < b.len() && b[j] == a[0];
        let i = choose|i: int| 0 <= i < a.len() && a[i] == b[0];
        spoken::lemma_code_before_total(a[0], b[0]);
        if a[0] != b[0] {
            assert(j > 0 && i > 0);
            assert(spoken::code_before(b[0], b[j]));
            assert(spoken::code_before(a[0], a[i]));
        }
        let ta = a.drop_first();
        let tb = b.drop_first();
        assert forall|c: spoken::Code| ta.contains(c) <==> tb.contains(c) by {
            if ta.contains(c) {
                let k = choose|k: int| 0 <= k < ta.len() && ta[k] == c;
                assert(a[k + 1] == c);
                assert(spoken::code_before(a[0], a[k + 1]));
                spoken::lemma_code_before_total(c, c);
                assert(a.contains(c));
                let m = choose|m: int| 0 <= m < b.len() && b[m] == c;
                assert(m != 0);
                assert(tb[m - 1] == c);
            }
            if tb.contains(c) {
                let k = choose|k: int| 0 <= k < tb.len() && tb[k] == c;
                assert(b[k + 1] == c);
                assert(spoken::code_before(b[0], b[k + 1]));
                spoken::lemma_code_before_total(c, c);
                assert(b.contains(c));
                let m = choose|m: int| 0 <= m < a.len() && a[m] == c;
                assert(m != 0);
                assert(ta[m - 1] == c);
            }
        }
        lemma_spoken_sorted_unique(ta, tb);
        assert(a =~= seq![a[0]] + ta);
        assert(b =~= seq![b[0]] + tb);
    }
}

/// Two strictly sorted lists of programming languages that hold the same languages are the
/// same list.
pub proof fn lemma_programming_sorted_unique(a: Seq<programming::Code>, b: Seq<programming::Code>)
    requires
        programming::strictly_sorted(a),
        programming::strictly_sorted(b),
        forall|c: programming::Code| a.contains(c) <==> b.contains(c),
    ensures
        a == b,
    decreases a.len(),
{
    if a.len() == 0 {
        if b.len() > 0 {
            assert(b.contains(b[0]));
        }
        assert(a =~= b);
    } else {
        assert(a.contains(a[0]));
        assert(b.len() > 0);
        assert(b.contains(b[0]));
        let j = choose|j: int| 0 <= j < b.len() && b[j] == a[0];
        let i = choose|i: int| 0 <= i < a.len() && a[i] == b[0];
        programming::lemma_code_before_total(a[0], b[0]);
        if a[0] != b[0] {
            assert(j > 0 && i > 0);
            assert(programming::code_before(b[0], b[j]));
            assert(programming::code_before(a[0], a[i]));
        }
        let ta = a.drop_first();
        let tb = b.drop_first();
        assert forall|c: programming::Code| ta.contains(c) <==> tb.contains(c) by {
            if ta.contains(c) {
                let k = choose|k: int| 0 <= k < ta.len() && ta[k] == c;
                assert(a[k + 1] == c);
                assert(programming::code_before(a[0], a[k + 1]));
                programming::lemma_code_before_total(c, c);
                assert(a.contains(c));
                let m = choose|m: int| 0 <= m < b.len() && b[m] == c;
                assert(m != 0);
                assert(tb[m - 1] == c);
            }
            if tb.contains(c) {
                let k = choose|k: int| 0 <= k < tb.len() && tb[k] == c;
                assert(b[k + 1] == c);
                assert(programming::code_before(b[0], b[k + 1]));
                programming::lemma_code_before_total(c, c);
                assert(b.contains(c));
                let m = choose|m: int| 0 <= m < a.len() && a[m] == c;
                assert(m != 0);
                assert(ta[m - 1] == c);
            }
        }
        lemma_programming_sorted_unique(ta, tb);
        assert(a =~= seq![a[0]] + ta);
        assert(b =~= seq![b[0]] + tb);
    }
}

/// The spoken languages the workshops offer, in order and each once.
pub open spec fn spoken_list(ws: Seq<WorkshopDataView>) -> Seq<spoken::Code> {
    choose|l: Seq<spoken::Code>|
        spoken::strictly_sorted(l) && forall|c: spoken::Code| #[trigger]
            l.contains(c) <==> some_offers_spoken(ws, c)
}

/// The programming languages the workshops offer, in order and each once.
pub open spec fn programming_list(ws: Seq<WorkshopDataView>) -> Seq<programming::Code> {
    choose|l: Seq<programming::Code>|
        programming::strictly_sorted(l) && forall|c: programming::Code| #[trigger]
            l.contains(c) <==> some_offers_programming(ws, c)
}

/// A list that is sorted and holds exactly the offered spoken languages is `spoken_list`.
pub proof fn lemma_spoken_list(ws: Seq<WorkshopDataView>, l: Seq<spoken::Code>)
    requires
        spoken::strictly_sorted(l),
        forall|c: spoken::Code| l.contains(c) <==> some_offers_spoken(ws, c),
    ensures
        spoken_list(ws) == l,
{
    let k = spoken_list(ws);
    assert(spoken::strictly_sorted(k) && forall|c: spoken::Code| #[trigger]
        k.contains(c) <==> some_offers_spoken(ws, c));
    lemma_spoken_sorted_unique(k, l);
}

/// A list that is sorted and holds exactly the offered programming languages is
/// `programming_list`.
pub proof fn lemma_programming_list(ws: Seq<WorkshopDataView>, l: Seq<programming::Code>)
    requires
        programming::strictly_sorted(l),
        forall|c: programming::Code| l.contains(c) <==> some_offers_programming(ws, c),
    ensures
        programming_list(ws) == l,
{
    let k = programming_list(ws);
    assert(programming::strictly_sorted(k) && forall|c: programming::Code| #[trigger]
        k.contains(c) <==> some_offers_programming(ws, c));
    lemma_programming_sorted_unique(k, l);
}

/// Loaded workshops, or why one could not be loaded, by value.
pub open spec fn results_view(v: Seq<Result<WorkshopData, Error>>) -> Seq<
    Result<WorkshopDataView, ErrorView>,
> {
    Seq::new(
        v.len(),
        |i: int|
            match v[i] {
                Ok(w) => Ok(w@),
                Err(e) => Err(e@),
            },
    )
}

/// The first failure among the loaded workshops, if any.
pub open spec fn first_failure(rs: Seq<Result<WorkshopDataView, ErrorView>>) -> Option<ErrorView>
    decreases rs.len(),
{
    if rs.len() == 0 {
        None
    } else {
        match rs[0] {
            Err(e) => Some(e),
            Ok(_) => first_failure(rs.drop_first()),
        }
    }
}

/// The workshops that were loaded.
pub open spec fn successes(rs: Seq<Result<WorkshopDataView, ErrorView>>) -> Seq<WorkshopDataView>
    decreases rs.len(),
{
    if rs.len() == 0 {
        Seq::empty()
    } else {
        let rest = successes(rs.drop_first());
        match rs[0] {
            Ok(w) => seq![w] + rest,
            Err(_) => rest,
        }
    }
}

/// All the workshops of the data directory, from the result of loading each of its
/// directories (`None` when the data directory is not there): the first failure, if any.
pub fn all_workshops(loaded: Option<Vec<Result<WorkshopData, Error>>>) -> (r: Result<
    Vec<WorkshopData>,
    Error,
>)
    ensures
        match loaded {
            None => r is Err && r->Err_0@ == ErrorView::WorkshopDataDirNotFound,
            Some(v) => match first_failure(results_view(v@)) {
                Some(e) => r is Err && r->Err_0@ == e,
                None => r is Ok && workshops_view(r->Ok_0@) == successes(results_view(v@)),
            },
        },
{
    let v = match loaded {
        None => return Err(Error::WorkshopDataDirNotFound),
        Some(v) => v,
    };
    let ghost all = results_view(v@);
    let mut v = v;
    let mut out: Vec<WorkshopData> = Vec::new();
    let n = v.len();
    let mut k: usize = 0;
    proof {
        assert(all.skip(0) =~= all);
        assert(workshops_view(out@) =~= Seq::<WorkshopDataView>::empty());
    }
    while k < n
        invariant
            k <= n,
            n == all.len(),
            loaded is Some,
            results_view(loaded->Some_0@) == all,
            v@.len() == n - k,
            results_view(v@) == all.skip(k as int),
            first_failure(all) == first_failure(all.skip(k as int)),
            successes(all) == workshops_view(out@) + successes(all.skip(k as int)),
        decreases n - k,
    {
        let ghost before = v@;
        let item = v.remove(0);
        proof {
            assert(item == before[0]);
            assert(results_view(before)[0] == all.skip(k as int)[0]);
            assert forall|j: int| 0 <= j < v@.len() implies #[trigger] results_view(v@)[j] == all.skip(k + 1)[j] by {
                assert(v@[j] == before[j + 1]);
                assert(results_view(before)[j + 1] == all.skip(k as int)[j + 1]);
            }
            assert(results_view(v@) =~= all.skip(k + 1));
            assert(all.skip(k as int).drop_first() =~= all.skip(k + 1));
        }
        match item {
            Err(e) => return Err(e),
            Ok(w) => {
                let ghost out0 = out@;
                out.push(w);
                proof {
                    assert(workshops_view(out@) =~= workshops_view(out0).push(w@));
                    assert(workshops_view(out@) + successes(all.skip(k + 1)) =~= workshops_view(out0)
                        + (seq![w@] + successes(all.skip(k + 1))));
                }
            },
        }
        k = k + 1;
    }
    proof {
        assert(all.skip(n as int) =~= Seq::<Result<WorkshopDataView, ErrorView>>::empty());
        assert(workshops_view(out@) + Seq::<WorkshopDataView>::empty() =~= workshops_view(out@));
    }
    Ok(out)
}

/// The loader of a workshop in the `.workshops` directory, when that directory was found and
/// holds the workshop as a directory.
pub fn load(workshops_dir: Option<&str>, workshop: &str, is_dir: bool) -> (r: Option<Loader>)
    ensures
        match workshops_dir {
            Some(d) => if is_dir {
                r is Some && r->Some_0@ == (LoaderView { name: workshop@, path: Some(d@) })
            } else {
                r is None
            },
            None => r is None,
        },
{
    match workshops_dir {
        Some(d) => if is_dir {
            Some(Loader::new(workshop).path(d))
        } else {
            None
        },
        None => None,
    }
}

/// The nearest directory that holds workshops, given for the working directory and then each
/// directory above it, in turn, whether it holds a `.workshops` directory: the position of the
/// first that does, if any.
pub fn nearest_workshops_dir(holds: &Vec<bool>) -> (r: Option<usize>)
    ensures
        match r {
            Some(i) => i < holds.len() && holds@[i as int] && forall|j: int|
                0 <= j < i ==> !holds@[j],
            None => forall|j: int| 0 <= j < holds.len() ==> !holds@[j],
        },
{
    let mut i: usize = 0;
    while i < holds.len()
        invariant
            i <= holds.len(),
            forall|j: int| 0 <= j < i ==> !holds@[j],
        decreases holds.len() - i,
    {
        if holds[i] {
            return Some(i);
        }
        i = i + 1;
    }
    None
}

} // verus!
