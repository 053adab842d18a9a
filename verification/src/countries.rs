//! Reshaping of upstream country records.
//!
//! Fetching and JSON decoding happen outside; the caller hands in the raw
//! fields it extracted, one record per country. This module derives the
//! simplified records — uppercased code, name falling back to the code,
//! defaults for missing fields — and sorts them by name.

use vstd::prelude::*;

verus! {

/// The fields of one upstream country record, each missing where the
/// upstream JSON lacked it.
pub struct RawCountry {
    pub cca2: Option<String>,
    pub name_common: Option<String>,
    pub region: Option<String>,
    pub population: Option<u64>,
    pub flag_png: Option<String>,
}

/// One simplified country record.
pub struct Country {
    pub code: String,
    pub name: String,
    pub region: String,
    pub population: u64,
    pub flag: String,
}

/// The mathematical value of a simplified record.
pub struct CountryView {
    pub code: Seq<char>,
    pub name: Seq<char>,
    pub region: Seq<char>,
    pub population: int,
    pub flag: Seq<char>,
}

impl View for Country {
    type V = CountryView;

    open spec fn view(&self) -> CountryView {
        CountryView {
            code: self.code@,
            name: self.name@,
            region: self.region@,
            population: self.population as int,
            flag: self.flag@,
        }
    }
}

impl DeepView for Country {
    type V = CountryView;

    open spec fn deep_view(&self) -> CountryView {
        self.view()
    }
}

/// The Unicode uppercase of a string, as the standard library computes it.
pub uninterp spec fn upper_of(s: Seq<char>) -> Seq<char>;

/// Relies on str::to_uppercase: the result depends on the characters alone,
/// and an empty string stays empty.
#[verifier::external_body]
fn to_upper(s: &str) -> (r: String)
    ensures
        r@ == upper_of(s@),
        s@.len() == 0 ==> r@.len() == 0,
{
    s.to_uppercase()
}

/// A missing string field reads as empty.
pub open spec fn opt_str_view(o: Option<String>) -> Seq<char> {
    match o {
        Some(s) => s@,
        None => Seq::<char>::empty(),
    }
}

/// The simplified record a raw record becomes: the code is the uppercased
/// two-letter code, the name falls back to that code where missing or
/// empty, and the remaining fields default to empty or zero.
pub open spec fn simplified_view(raw: RawCountry) -> CountryView {
    let code = upper_of(opt_str_view(raw.cca2));
    CountryView {
        code: code,
        name: if opt_str_view(raw.name_common).len() == 0 {
            code
        } else {
            opt_str_view(raw.name_common)
        },
        region: opt_str_view(raw.region),
        population: match raw.population {
            Some(p) => p as int,
            None => 0,
        },
        flag: opt_str_view(raw.flag_png),
    }
}

/// Simplifies one raw record.
pub fn simplify_country(raw: RawCountry) -> (r: Country)
    ensures
        r@ == simplified_view(raw),
{
    let ghost rawg = raw;
    let RawCountry { cca2, name_common, region, population, flag_png } = raw;
    let code = match cca2 {
        Some(s) => to_upper(s.as_str()),
        None => {
            let e = String::new();
            let u = to_upper(e.as_str());
            proof {
                assert(e@ =~= Seq::<char>::empty());
            }
            u
        },
    };
    let name = match name_common {
        Some(s) => {
            if s.as_str().unicode_len() == 0 {
                code.clone()
            } else {
                s
            }
        },
        None => code.clone(),
    };
    let region_s = match region {
        Some(s) => s,
        None => String::new(),
    };
    let population_v = match population {
        Some(p) => p,
        None => 0,
    };
    let flag = match flag_png {
        Some(s) => s,
        None => String::new(),
    };
    let r = Country { code, name, region: region_s, population: population_v, flag };
    proof {
        assert(opt_str_view(rawg.name_common).len() == 0 ==> r@.name =~= simplified_view(
            rawg,
        ).name);
        assert(rawg.region is None ==> r@.region =~= Seq::<char>::empty());
        assert(rawg.flag_png is None ==> r@.flag =~= Seq::<char>::empty());
    }
    r
}

/// Lexicographic order on character sequences, by code point — the order
/// the byte-wise comparison of the original strings induces.
pub open spec fn lex_le(a: Seq<char>, b: Seq<char>) -> bool
    decreases a.len(),
{
    if a.len() == 0 {
        true
    } else if b.len() == 0 {
        false
    } else if (a[0] as int) < (b[0] as int) {
        true
    } else if (a[0] as int) > (b[0] as int) {
        false
    } else {
        lex_le(a.drop_first(), b.drop_first())
    }
}

/// Law: the lexicographic order is total — two sequences compare one way or
/// the other.
pub proof fn lemma_lex_total(a: Seq<char>, b: Seq<char>)
    ensures
        lex_le(a, b) || lex_le(b, a),
    decreases a.len(),
{
    if a.len() == 0 || b.len() == 0 {
    } else if (a[0] as int) == (b[0] as int) {
        lemma_lex_total(a.drop_first(), b.drop_first());
    }
}

/// Compares two strings in lexicographic code-point order.
pub fn str_lex_le(a: &str, b: &str) -> (r: bool)
    ensures
        r == lex_le(a@, b@),
{
    let alen = a.unicode_len();
    let blen = b.unicode_len();
    let mut i: usize = 0;
    proof {
        assert(a@.skip(0) =~= a@);
        assert(b@.skip(0) =~= b@);
    }
    loop
        invariant
            alen == a@.len(),
            blen == b@.len(),
            i <= alen,
            i <= blen,
            lex_le(a@, b@) == lex_le(a@.skip(i as int), b@.skip(i as int)),
            lex_le(b@, a@) == lex_le(b@.skip(i as int), a@.skip(i as int)),
            forall|k: int| 0 <= k < i ==> a@[k] == b@[k],
        decreases alen - i,
    {
        if i >= alen {
            proof {
                assert(a@.skip(i as int).len() == 0);
            }
            return true;
        }
        if i >= blen {
            proof {
                assert(b@.skip(i as int).len() == 0);
                assert(a@.skip(i as int).len() > 0);
            }
            return false;
        }
        let ca = a.get_char(i) as u32;
        let cb = b.get_char(i) as u32;
        proof {
            assert(a@.skip(i as int)[0] == a@[i as int]);
            assert(b@.skip(i as int)[0] == b@[i as int]);
        }
        if ca < cb {
            return true;
        }
        if ca > cb {
            return false;
        }
        proof {
            assert(a@.skip(i as int).drop_first() =~= a@.skip(i + 1));
            assert(b@.skip(i as int).drop_first() =~= b@.skip(i + 1));
        }
        i += 1;
    }
}

/// Adjacent records are in name order.
pub open spec fn sorted_by_name(s: Seq<CountryView>) -> bool {
    forall|k: int| #![trigger s[k]] 0 <= k && k + 1 < s.len() ==> lex_le(s[k].name, s[k + 1].name)
}

/// Swaps the records at `j - 1` and `j`.
fn swap_back(v: &mut Vec<Country>, j: usize)
    requires
        0 < j < old(v)@.len(),
    ensures
        final(v)@.len() == old(v)@.len(),
        final(v).deep_view() == old(v).deep_view().update(
            j - 1,
            old(v).deep_view()[j as int],
        ).update(j as int, old(v).deep_view()[j - 1]),
        final(v).deep_view().to_multiset() == old(v).deep_view().to_multiset(),
{
    broadcast use vstd::seq_lib::group_to_multiset_ensures;
    broadcast use vstd::seq_lib::to_multiset_insert;
    broadcast use vstd::seq_lib::to_multiset_remove;

    let ghost dv0 = old(v).deep_view();
    let x = v.remove(j - 1);
    proof {
        assert(v.deep_view() =~= dv0.remove(j - 1));
    }
    let ghost dv1 = v.deep_view();
    v.insert(j, x);
    proof {
        assert(v.deep_view() =~= dv1.insert(j as int, x.deep_view()));
        assert(v.deep_view() =~= dv0.update(j - 1, dv0[j as int]).update(j as int, dv0[j - 1]));
        assert(dv0.contains(dv0[j - 1]));
        assert(dv0.to_multiset().count(dv0[j - 1]) > 0);
        assert(dv1.to_multiset() == dv0.to_multiset().remove(dv0[j - 1]));
        assert(v.deep_view().to_multiset() =~= dv0.to_multiset());
    }
}

/// Sorts the records by name, in the lexicographic code-point order, keeping
/// exactly the same records.
pub fn sort_countries_by_name(v: &mut Vec<Country>)
    ensures
        final(v).deep_view().len() == old(v).deep_view().len(),
        sorted_by_name(final(v).deep_view()),
        final(v).deep_view().to_multiset() == old(v).deep_view().to_multiset(),
{
    let ghost dv0 = old(v).deep_view();
    let n = v.len();
    let mut i: usize = 1;
    if n <= 1 {
        return ;
    }
    while i < n
        invariant
            n == v@.len(),
            1 <= i <= n,
            v.deep_view().to_multiset() == dv0.to_multiset(),
            forall|k: int| #![trigger v.deep_view()[k]] 0 <= k && k + 1 < i ==> lex_le(
                v.deep_view()[k].name,
                v.deep_view()[k + 1].name,
            ),
        decreases n - i,
    {
        let mut j: usize = i;
        let mut moving = true;
        while moving && j > 0
            invariant
                n == v@.len(),
                0 <= j <= i < n,
                v.deep_view().to_multiset() == dv0.to_multiset(),
                forall|k: int| #![trigger v.deep_view()[k]] 0 <= k && k + 1 <= i && k != j - 1
                    ==> lex_le(v.deep_view()[k].name, v.deep_view()[k + 1].name),
                j >= 1 && j + 1 <= i ==> lex_le(v.deep_view()[j - 1].name, v.deep_view()[j + 1].name),
                !moving ==> j >= 1 && lex_le(v.deep_view()[j - 1].name, v.deep_view()[j as int].name),
            decreases j + if moving {
                1int
            } else {
                0int
            },
        {
            let stop = {
                let a = &v[j - 1];
                let b = &v[j];
                str_lex_le(a.name.as_str(), b.name.as_str())
            };
            if stop {
                moving = false;
            } else {
                proof {
                    lemma_lex_total(v.deep_view()[j - 1].name, v.deep_view()[j as int].name);
                    if j >= 2 {
                        assert(lex_le(v.deep_view()[j - 2].name, v.deep_view()[j - 1].name));
                    }
                }
                let ghost pre = v.deep_view();
                swap_back(v, j);
                proof {
                    let post = v.deep_view();
                    assert(post == pre.update(j - 1, pre[j as int]).update(j as int, pre[j - 1]));
                    assert(post[j - 1] == pre[j as int]);
                    assert(post[j as int] == pre[j - 1]);
                    assert forall|k: int| #![trigger post[k]] 0 <= k && k + 1 <= i && k != j - 2
                        implies lex_le(post[k].name, post[k + 1].name) by {
                        if k == j - 1 {
                            assert(lex_le(pre[j as int].name, pre[j - 1].name));
                        } else if k == j {
                            assert(post[k].name == pre[j - 1].name);
                            assert(post[k + 1].name == pre[k + 1].name);
                            assert(lex_le(pre[j - 1].name, pre[j + 1].name));
                        } else {
                            assert(post[k] == pre[k]);
                            assert(post[k + 1] == pre[k + 1]);
                            assert(lex_le(pre[k].name, pre[k + 1].name));
                        }
                    }
                    if j >= 2 && j <= i {
                        assert(post[j - 2] == pre[j - 2]);
                        assert(lex_le(pre[j - 2].name, pre[j - 1].name));
                        assert(lex_le(post[j - 2].name, post[j as int].name));
                    }
                }
                j -= 1;
            }
        }
        i += 1;
    }
}

/// Simplifies every raw record and returns them sorted by name: the records
/// are exactly the simplified forms of the input, in name order.
pub fn simplify_countries(raw: Vec<RawCountry>) -> (r: Vec<Country>)
    ensures
        r.deep_view().len() == raw@.len(),
        sorted_by_name(r.deep_view()),
        r.deep_view().to_multiset() == raw@.map_values(
            |rc: RawCountry| simplified_view(rc),
        ).to_multiset(),
{
    let ghost rawseq = raw@;
    let n = raw.len();
    let mut out: Vec<Country> = Vec::new();
    let mut items = raw;
    let mut i: usize = 0;
    while i < n
        invariant
            n == rawseq.len(),
            items@ =~= rawseq.skip(i as int),
            i <= n,
            out@.len() == i,
            forall|k: int| 0 <= k < i ==> #[trigger] out.deep_view()[k] == simplified_view(
                rawseq[k],
            ),
        decreases n - i,
    {
        let rc = items.remove(0);
        proof {
            assert(rc == rawseq[i as int]);
            assert(items@ =~= rawseq.skip(i + 1));
        }
        let c = simplify_country(rc);
        let ghost cview = c@;
        let ghost preout = out.deep_view();
        out.push(c);
        proof {
            assert(cview == simplified_view(rawseq[i as int]));
            assert forall|k: int| 0 <= k < i + 1 implies #[trigger] out.deep_view()[k]
                == simplified_view(rawseq[k]) by {
                if k == i {
                    assert(out.deep_view()[k] == cview);
                } else {
                    assert(out.deep_view()[k] == preout[k]);
                }
            }
        }
        i += 1;
    }
    proof {
        let mapped = rawseq.map_values(|rc: RawCountry| simplified_view(rc));
        assert forall|k: int| 0 <= k < n implies out.deep_view()[k] == mapped[k] by {
            assert(mapped[k] == simplified_view(rawseq[k]));
        }
        assert(out.deep_view() =~= mapped);
    }
    sort_countries_by_name(&mut out);
    out
}

} // verus!
