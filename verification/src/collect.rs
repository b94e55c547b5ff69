use vstd::prelude::*;

verus! {

/// Applies `f` to each element in order and gathers the results, stopping at
/// the first element for which `f` fails and returning that failure.
pub open spec fn collect_results<A, T, E>(s: Seq<A>, f: spec_fn(A) -> Result<T, E>) -> Result<
    Seq<T>,
    E,
>
    decreases s.len(),
{
    if s.len() == 0 {
        Ok(Seq::empty())
    } else {
        match collect_results(s.drop_last(), f) {
            Err(e) => Err(e),
            Ok(done) => match f(s.last()) {
                Err(e) => Err(e),
                Ok(t) => Ok(done.push(t)),
            },
        }
    }
}

/// Extending a sequence by one element: the gathered results grow by the
/// result of that element, or the first failure is the new element's.
pub proof fn lemma_collect_step<A, T, E>(s: Seq<A>, i: int, f: spec_fn(A) -> Result<T, E>)
    requires
        0 <= i < s.len(),
        collect_results(s.take(i), f) is Ok,
    ensures
        collect_results(s.take(i + 1), f) == match f(s[i]) {
            Err(e) => Err(e),
            Ok(t) => Ok(collect_results(s.take(i), f)->Ok_0.push(t)),
        },
{
    assert(s.take(i + 1).drop_last() =~= s.take(i));
}

/// Once a prefix fails, the whole sequence fails the same way.
pub proof fn lemma_collect_err_prefix<A, T, E>(s: Seq<A>, i: int, f: spec_fn(A) -> Result<T, E>)
    requires
        0 <= i <= s.len(),
        collect_results(s.take(i), f) is Err,
    ensures
        collect_results(s, f) == collect_results(s.take(i), f),
    decreases s.len() - i,
{
    if i == s.len() {
        assert(s.take(i) =~= s);
    } else {
        assert(s.take(i + 1).drop_last() =~= s.take(i));
        lemma_collect_err_prefix(s, i + 1, f);
    }
}

/// On success every element was gathered, in order.
pub proof fn lemma_collect_ok<A, T, E>(s: Seq<A>, f: spec_fn(A) -> Result<T, E>)
    requires
        collect_results(s, f) is Ok,
    ensures
        collect_results(s, f)->Ok_0.len() == s.len(),
        forall|i: int|
            0 <= i < s.len() ==> f(s[i]) == Ok::<T, E>(
                #[trigger] collect_results(s, f)->Ok_0[i],
            ),
    decreases s.len(),
{
    if s.len() > 0 {
        lemma_collect_ok(s.drop_last(), f);
    }
}

/// When every element succeeds, so does the whole sequence.
pub proof fn lemma_collect_all_ok<A, T, E>(s: Seq<A>, f: spec_fn(A) -> Result<T, E>)
    requires
        forall|i: int| 0 <= i < s.len() ==> #[trigger] f(s[i]) is Ok,
    ensures
        collect_results(s, f) is Ok,
    decreases s.len(),
{
    if s.len() > 0 {
        assert forall|i: int| 0 <= i < s.drop_last().len() implies #[trigger] f(
            s.drop_last()[i],
        ) is Ok by {
            assert(s.drop_last()[i] == s[i]);
        }
        lemma_collect_all_ok(s.drop_last(), f);
        assert(f(s[s.len() - 1]) is Ok);
    }
}

/// The failure of the whole sequence is that of its first failing element.
pub proof fn lemma_collect_first_err<A, T, E>(s: Seq<A>, k: int, f: spec_fn(A) -> Result<T, E>)
    requires
        0 <= k < s.len(),
        forall|j: int| 0 <= j < k ==> #[trigger] f(s[j]) is Ok,
        f(s[k]) is Err,
    ensures
        collect_results(s, f) == Err::<Seq<T>, E>(f(s[k])->Err_0),
{
    let prefix = s.take(k);
    assert forall|j: int| 0 <= j < prefix.len() implies #[trigger] f(prefix[j]) is Ok by {
        assert(prefix[j] == s[j]);
    }
    lemma_collect_all_ok(prefix, f);
    lemma_collect_step(s, k, f);
    lemma_collect_err_prefix(s, k + 1, f);
}

} // verus!
