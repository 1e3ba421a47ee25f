use vstd::prelude::*;

use crate::error::ErrorKind;
use crate::error::GusError;
use crate::model_def::ModelDefinition;
use crate::model_def::ModelV;
use crate::model_def::spec_model_of_text;
use crate::name::ModelName;
use crate::name::normal_of;
use crate::pairs::lookup;

verus! {

/// What one model-definition text yields: a model, where the text denotes one
/// that meets the model-definition invariants; nothing otherwise.
pub open spec fn spec_try_model(t: Seq<char>) -> Option<ModelV> {
    match spec_model_of_text(t) {
        Some(mv) => if mv.valid() {
            Some(mv)
        } else {
            None
        },
        None => None,
    }
}

/// The models of a list of texts, in text order, skipping texts that do not
/// yield one.
pub open spec fn parsed_models(texts: Seq<Seq<char>>) -> Seq<ModelV>
    decreases texts.len(),
{
    if texts.len() == 0 {
        Seq::empty()
    } else {
        parsed_models(texts.drop_last()) + (match spec_try_model(texts.last()) {
            Some(mv) => seq![mv],
            None => Seq::empty(),
        })
    }
}

/// The normalized form of a model's name: the camelCase of the plural.
pub open spec fn norm_name(m: ModelV) -> Seq<char> {
    normal_of(m.model_name)
}

/// A normalized name borne by two different entries of the list.
pub open spec fn name_duplicated(ms: Seq<ModelV>, n: Seq<char>) -> bool {
    exists|i: int, j: int|
        0 <= i < j < ms.len() && norm_name(#[trigger] ms[i]) == n && norm_name(#[trigger] ms[j])
            == n
}

/// The models whose normalized name is borne by no other entry: when two
/// entries share a normalized name, both are discarded.
pub open spec fn dedup_models(ms: Seq<ModelV>, full: Seq<ModelV>) -> Seq<ModelV>
    decreases ms.len(),
{
    if ms.len() == 0 {
        Seq::empty()
    } else {
        dedup_models(ms.drop_last(), full) + (if name_duplicated(full, norm_name(ms.last())) {
            Seq::empty()
        } else {
            seq![ms.last()]
        })
    }
}

/// What scanning a list of model-definition texts yields.
pub open spec fn spec_parse_models(texts: Seq<Seq<char>>) -> Seq<ModelV> {
    dedup_models(parsed_models(texts), parsed_models(texts))
}

pub open spec fn texts_view(texts: Seq<String>) -> Seq<Seq<char>> {
    Seq::new(texts.len(), |i: int| texts[i]@)
}

pub open spec fn models_view(models: Seq<ModelDefinition>) -> Seq<ModelV> {
    Seq::new(models.len(), |i: int| models[i]@)
}

/// Every model a text list yields is valid.
pub proof fn lemma_parsed_models_valid(texts: Seq<Seq<char>>)
    ensures
        forall|i: int| 0 <= i < parsed_models(texts).len() ==> (#[trigger] parsed_models(
            texts,
        )[i]).valid(),
    decreases texts.len(),
{
    if texts.len() > 0 {
        lemma_parsed_models_valid(texts.drop_last());
        let pre = parsed_models(texts.drop_last());
        let all = parsed_models(texts);
        assert forall|i: int| 0 <= i < all.len() implies (#[trigger] all[i]).valid() by {
            if i < pre.len() {
                assert(all[i] == pre[i]);
            } else {
                assert(spec_try_model(texts.last()) == Some(all[i]));
            }
        }
    }
}

/// The deduplicated list is drawn from the parsed list.
pub proof fn lemma_dedup_models_sub(ms: Seq<ModelV>, full: Seq<ModelV>)
    ensures
        forall|i: int| 0 <= i < dedup_models(ms, full).len() ==> ms.contains(
            #[trigger] dedup_models(ms, full)[i],
        ),
    decreases ms.len(),
{
    if ms.len() > 0 {
        lemma_dedup_models_sub(ms.drop_last(), full);
        assert forall|i: int| 0 <= i < dedup_models(ms, full).len() implies ms.contains(
            #[trigger] dedup_models(ms, full)[i],
        ) by {
            let d = dedup_models(ms, full);
            let dpre = dedup_models(ms.drop_last(), full);
            if i < dpre.len() {
                assert(d[i] == dpre[i]);
                let j = choose|j: int| 0 <= j < ms.drop_last().len() && ms.drop_last()[j] == dpre[i];
                assert(ms[j] == dpre[i]);
            } else {
                assert(d[i] == ms.last());
                assert(ms[ms.len() - 1] == ms.last());
            }
        }
    }
}

/// The dedup law: a model whose normalized name two texts bore is absent from
/// the result.
pub proof fn lemma_dedup_models_drops(ms: Seq<ModelV>, full: Seq<ModelV>, n: Seq<char>)
    requires
        name_duplicated(full, n),
    ensures
        forall|i: int| 0 <= i < dedup_models(ms, full).len() ==> norm_name(
            #[trigger] dedup_models(ms, full)[i],
        ) != n,
    decreases ms.len(),
{
    if ms.len() > 0 {
        lemma_dedup_models_drops(ms.drop_last(), full, n);
        let pre = dedup_models(ms.drop_last(), full);
        let all = dedup_models(ms, full);
        assert forall|i: int| 0 <= i < all.len() implies norm_name(#[trigger] all[i]) != n by {
            if i < pre.len() {
                assert(all[i] == pre[i]);
            } else {
                assert(all[i] == ms.last());
                assert(!name_duplicated(full, norm_name(ms.last())));
            }
        }
    }
}

/// Scans a list of model-definition texts: a text that does not yield a valid
/// model definition is skipped; when two remaining models normalize to the
/// same (plural, camelCase) name, both are discarded; an empty result fails
/// with NotFound. The result is exactly `spec_parse_models` of the texts, so
/// its members are unique by normalized name and each is a valid model.
#[verifier::loop_isolation(false)]
pub fn parse_models(texts: &Vec<String>) -> (r: Result<Vec<ModelDefinition>, GusError>)
    ensures
        r matches Ok(models) ==> models_view(models@) == spec_parse_models(texts_view(texts@))
            && models@.len() > 0,
        r is Err <==> spec_parse_models(texts_view(texts@)).len() == 0,
        r matches Err(e) ==> e.kind == ErrorKind::NotFound,
{
    let ghost tv = texts_view(texts@);
    let mut models: Vec<ModelDefinition> = Vec::new();
    let mut names: Vec<ModelName> = Vec::new();
    let mut i: usize = 0;
    while i < texts.len()
        invariant
            0 <= i <= texts@.len(),
            models@.len() == names@.len(),
            models_view(models@) =~= parsed_models(tv.subrange(0, i as int)),
            forall|j: int| 0 <= j < names@.len() ==> (#[trigger] names@[j])@ == norm_name(
                models@[j]@,
            ),
        decreases texts@.len() - i,
    {
        proof {
            assert(tv[i as int] == texts@[i as int]@);
        }
        match ModelDefinition::try_from(texts[i].as_str()) {
            Ok(model) => {
                let name = model.model_name.normalized();
                names.push(name);
                models.push(model);
            },
            Err(_) => {},
        }
        proof {
            let pre = tv.subrange(0, i as int);
            let post = tv.subrange(0, i + 1 as int);
            assert(post.drop_last() =~= pre);
            assert(post.last() == tv[i as int]);
            assert(models_view(models@) =~= parsed_models(post));
        }
        i = i + 1;
    }
    proof {
        assert(tv.subrange(0, tv.len() as int) =~= tv);
    }
    let ghost ms = parsed_models(tv);

    // remove all models whose normalized name occurs more than once
    let mut out: Vec<ModelDefinition> = Vec::new();
    let mut i: usize = 0;
    while i < models.len()
        invariant
            0 <= i <= models@.len(),
            models@.len() == names@.len(),
            ms == models_view(models@),
            forall|j: int| 0 <= j < names@.len() ==> (#[trigger] names@[j])@ == norm_name(
                models@[j]@,
            ),
            models_view(out@) =~= dedup_models(ms.subrange(0, i as int), ms),
        decreases models@.len() - i,
    {
        proof {
            assert(ms[i as int] == models@[i as int]@);
        }
        let mut dup = false;
        let mut j: usize = 0;
        while j < names.len()
            invariant
                0 <= j <= names@.len(),
                models@.len() == names@.len(),
                ms == models_view(models@),
                i < models@.len(),
                forall|m: int| 0 <= m < names@.len() ==> (#[trigger] names@[m])@ == norm_name(
                    models@[m]@,
                ),
                dup <==> (exists|m: int|
                    0 <= m < j && m != i as int && norm_name(#[trigger] ms[m]) == norm_name(
                        ms[i as int],
                    )),
            decreases names@.len() - j,
        {
            if j != i {
                if names[j].eq_name(&names[i]) {
                    proof {
                        assert(norm_name(ms[j as int]) == norm_name(ms[i as int]));
                    }
                    dup = true;
                }
            }
            j = j + 1;
        }
        proof {
            assert(dup <==> name_duplicated(ms, norm_name(ms[i as int]))) by {
                if dup {
                    let m = choose|m: int|
                        0 <= m < names@.len() && m != i as int && norm_name(#[trigger] ms[m])
                            == norm_name(ms[i as int]);
                    if m < i as int {
                        assert(norm_name(ms[m]) == norm_name(ms[i as int]));
                        assert(name_duplicated(ms, norm_name(ms[i as int])));
                    } else {
                        assert(norm_name(ms[i as int]) == norm_name(ms[i as int]));
                        assert(name_duplicated(ms, norm_name(ms[i as int])));
                    }
                } else {
                    if name_duplicated(ms, norm_name(ms[i as int])) {
                        let (a, b) = choose|a: int, b: int|
                            0 <= a < b < ms.len() && norm_name(#[trigger] ms[a]) == norm_name(
                                ms[i as int],
                            ) && norm_name(#[trigger] ms[b]) == norm_name(ms[i as int]);
                        if a != i as int {
                            assert(false);
                        } else {
                            assert(b != i as int);
                            assert(false);
                        }
                    }
                }
            }
        }
        if !dup {
            out.push(models[i].dup());
        }
        proof {
            let pre = ms.subrange(0, i as int);
            let post = ms.subrange(0, i + 1 as int);
            assert(post.drop_last() =~= pre);
            assert(post.last() == ms[i as int]);
            assert(models_view(out@) =~= dedup_models(post, ms));
        }
        i = i + 1;
    }
    proof {
        assert(ms.subrange(0, ms.len() as int) =~= ms);
    }
    if out.len() == 0 {
        return Err(GusError::new(ErrorKind::NotFound, "No valid models defined"));
    }
    Ok(out)
}

/// The pairing of models with their normalized names, for lookup by name.
pub open spec fn model_pairs(ms: Seq<ModelV>) -> Seq<(Seq<char>, ModelV)> {
    Seq::new(ms.len(), |i: int| (norm_name(ms[i]), ms[i]))
}

/// Picks the first model whose normalized name equals the normalized form of
/// the given name; fails with NotFound where there is none, which covers both
/// a model that never existed and one discarded as a duplicate.
#[verifier::loop_isolation(false)]
pub fn parse_model(models: &Vec<ModelDefinition>, model_name: &ModelName) -> (r: Result<
    ModelDefinition,
    GusError,
>)
    ensures
        match r {
            Ok(m) => lookup(model_pairs(models_view(models@)), normal_of(model_name@)) == Some(
                m@,
            ),
            Err(e) => lookup(model_pairs(models_view(models@)), normal_of(model_name@)) is None
                && e.kind == ErrorKind::NotFound,
        },
{
    let ghost pairs = model_pairs(models_view(models@));
    let wanted = model_name.normalized();
    let mut i: usize = 0;
    while i < models.len()
        invariant
            0 <= i <= models@.len(),
            pairs.len() == models@.len(),
            wanted@ == normal_of(model_name@),
            forall|j: int| 0 <= j < i ==> (#[trigger] pairs[j]).0 != normal_of(model_name@),
        decreases models@.len() - i,
    {
        proof {
            assert(pairs[i as int] == (norm_name(models@[i as int]@), models@[i as int]@));
        }
        let name = models[i].model_name.normalized();
        if name.eq_name(&wanted) {
            proof {
                crate::pairs::lemma_find_key_first(pairs, normal_of(model_name@), i as int);
            }
            return Ok(models[i].dup());
        }
        i = i + 1;
    }
    proof {
        crate::pairs::lemma_find_key_bounds(pairs, normal_of(model_name@));
    }
    Err(GusError::new(ErrorKind::NotFound, "model not found"))
}

} // verus!
