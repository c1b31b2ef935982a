use vstd::prelude::*;

verus! {

/// Which full-text index a query is sanitized for.
#[derive(Debug, PartialEq, Eq, Structural, Clone, Copy)]
pub enum SearchScope {
    /// Player names.
    Players,
    /// Map search tags, where an underscore also separates words.
    Maps,
}

/// Why a search query was refused.
#[derive(Debug, PartialEq, Eq, Structural, Clone, Copy)]
pub enum SearchError {
    /// No word of at least two characters survived sanitization.
    InsufficientQuery,
}

impl SearchError {
    /// The HTTP status that answers this error.
    pub fn status(&self) -> (r: u16)
        ensures
            r == 400,
    {
        match self {
            SearchError::InsufficientQuery => 400,
        }
    }

    /// The response body that goes with the status.
    pub fn message(&self) -> (r: &'static str)
        ensures
            r@ == "insufficient search query"@,
    {
        match self {
            SearchError::InsufficientQuery => "insufficient search query",
        }
    }
}

/// Characters that boolean-mode full-text search reads as operators, plus the
/// space; for map search the underscore as well.
pub open spec fn is_strip_char(c: char, scope: SearchScope) -> bool {
    c == '+' || c == '-' || c == '@' || c == '>' || c == '<' || c == '(' || c == ')' || c == '~'
        || c == '*' || c == '"' || c == '%' || c == ' ' || (scope == SearchScope::Maps && c
        == '_')
}

/// The pieces of `s` between strip characters, empty pieces included, as
/// `str::split` yields them.
pub open spec fn split_words(s: Seq<char>, scope: SearchScope) -> Seq<Seq<char>>
    decreases s.len(),
{
    if s.len() == 0 {
        seq![Seq::<char>::empty()]
    } else {
        let prev = split_words(s.drop_last(), scope);
        if is_strip_char(s.last(), scope) {
            prev.push(Seq::<char>::empty())
        } else {
            prev.update(prev.len() - 1, prev.last().push(s.last()))
        }
    }
}

/// The words of at least two characters, in order, each with a trailing `*`.
pub open spec fn starred_terms(words: Seq<Seq<char>>) -> Seq<Seq<char>>
    decreases words.len(),
{
    if words.len() == 0 {
        Seq::<Seq<char>>::empty()
    } else {
        let prev = starred_terms(words.drop_last());
        if words.last().len() >= 2 {
            prev.push(words.last().push('*'))
        } else {
            prev
        }
    }
}

/// The terms separated by single spaces.
pub open spec fn join_terms(terms: Seq<Seq<char>>) -> Seq<char>
    decreases terms.len(),
{
    if terms.len() == 0 {
        Seq::<char>::empty()
    } else if terms.len() == 1 {
        terms[0]
    } else {
        join_terms(terms.drop_last()) + seq![' '] + terms.last()
    }
}

/// The terms that a raw query turns into.
pub open spec fn search_terms(query: Seq<char>, scope: SearchScope) -> Seq<Seq<char>> {
    starred_terms(split_words(query, scope))
}

proof fn lemma_split_words_nonempty(s: Seq<char>, scope: SearchScope)
    ensures
        split_words(s, scope).len() >= 1,
    decreases s.len(),
{
    if s.len() > 0 {
        lemma_split_words_nonempty(s.drop_last(), scope);
    }
}

proof fn lemma_split_words_clean(s: Seq<char>, scope: SearchScope)
    ensures
        forall|i: int, j: int|
            0 <= i < split_words(s, scope).len() && 0 <= j < split_words(s, scope)[i].len()
                ==> !is_strip_char(#[trigger] split_words(s, scope)[i][j], scope),
    decreases s.len(),
{
    if s.len() > 0 {
        lemma_split_words_clean(s.drop_last(), scope);
        lemma_split_words_nonempty(s.drop_last(), scope);
    }
}

proof fn lemma_starred_terms_shape(words: Seq<Seq<char>>, scope: SearchScope)
    requires
        forall|i: int, j: int|
            0 <= i < words.len() && 0 <= j < words[i].len() ==> !is_strip_char(
                #[trigger] words[i][j],
                scope,
            ),
    ensures
        forall|i: int|
            0 <= i < starred_terms(words).len() ==> is_clean_term(
                #[trigger] starred_terms(words)[i],
                scope,
            ),
        (forall|i: int| 0 <= i < words.len() ==> #[trigger] words[i].len() < 2) ==> starred_terms(
            words,
        ).len() == 0,
    decreases words.len(),
{
    if words.len() > 0 {
        let prev = words.drop_last();
        assert forall|i: int, j: int|
            0 <= i < prev.len() && 0 <= j < prev[i].len() implies !is_strip_char(
                #[trigger] prev[i][j],
                scope,
            ) by {
            assert(prev[i] == words[i]);
        }
        lemma_starred_terms_shape(prev, scope);
        let w = words.last();
        if w.len() >= 2 {
            let t = w.push('*');
            assert forall|j: int| 0 <= j < t.len() - 1 implies !is_strip_char(
                #[trigger] t[j],
                scope,
            ) by {
                assert(t[j] == words[words.len() - 1][j]);
            }
        }
        if forall|i: int| 0 <= i < words.len() ==> #[trigger] words[i].len() < 2 {
            assert forall|i: int| 0 <= i < prev.len() implies #[trigger] prev[i].len() < 2 by {
                assert(prev[i] == words[i]);
            }
            assert(words[words.len() - 1].len() < 2);
        }
    }
}

/// A term as the full-text engine receives it: a word of at least two
/// characters free of strip characters, followed by `*`.
pub open spec fn is_clean_term(t: Seq<char>, scope: SearchScope) -> bool {
    &&& t.len() >= 3
    &&& t.last() == '*'
    &&& forall|j: int| 0 <= j < t.len() - 1 ==> !is_strip_char(#[trigger] t[j], scope)
}

/// Every term of a sanitized query is at least three characters long, ends with
/// `*`, and holds no strip character before that `*`; and when every raw word
/// is shorter than two characters no term remains, so sanitization fails.
pub proof fn lemma_sanitized_terms_clean(query: Seq<char>, scope: SearchScope)
    ensures
        forall|i: int|
            0 <= i < search_terms(query, scope).len() ==> is_clean_term(
                #[trigger] search_terms(query, scope)[i],
                scope,
            ),
        (forall|i: int|
            0 <= i < split_words(query, scope).len() ==> #[trigger] split_words(query, scope)[i].len()
                < 2) ==> search_terms(query, scope).len() == 0,
{
    lemma_split_words_clean(query, scope);
    lemma_starred_terms_shape(split_words(query, scope), scope);
}

/// Appends the term made from `word`, if it is long enough, to the joined text.
fn flush_word(out: &mut String, have_term: &mut bool, word: &str, Ghost(done): Ghost<
    Seq<Seq<char>>,
>)
    requires
        old(out)@ == join_terms(starred_terms(done)),
        *old(have_term) == (starred_terms(done).len() > 0),
    ensures
        final(out)@ == join_terms(starred_terms(done.push(word@))),
        *final(have_term) == (starred_terms(done.push(word@)).len() > 0),
{
    let ghost all = done.push(word@);
    assert(all.drop_last() == done);
    proof {
        reveal_strlit(" ");
        reveal_strlit("*");
        assert(" "@ =~= seq![' ']);
        assert("*"@ =~= seq!['*']);
    }
    if word.unicode_len() >= 2 {
        let ghost prev = starred_terms(done);
        assert(starred_terms(all) == prev.push(word@.push('*')));
        if *have_term {
            out.append(" ");
        }
        out.append(word);
        out.append("*");
        let ghost terms = prev.push(word@.push('*'));
        assert(terms.drop_last() == prev);
        proof {
            if prev.len() == 0 {
                assert(out@ =~= word@.push('*'));
            } else {
                assert(out@ =~= join_terms(prev) + seq![' '] + word@.push('*'));
            }
        }
        *have_term = true;
    } else {
        assert(starred_terms(all) == starred_terms(done));
    }
}

/// Turns a raw search query into a boolean-mode full-text query: the query is
/// split on the strip characters of `scope`, words shorter than two characters
/// are dropped, each remaining word gets a trailing `*`, and the words are
/// joined with single spaces. Fails when no word remains.
pub fn sanitize_query(query: &str, scope: SearchScope) -> (r: Result<String, SearchError>)
    ensures
        search_terms(query@, scope).len() == 0 ==> r == Err::<String, SearchError>(
            SearchError::InsufficientQuery,
        ),
        search_terms(query@, scope).len() > 0 ==> (r matches Ok(s) && s@ == join_terms(
            search_terms(query@, scope),
        )),
{
    let n = query.unicode_len();
    let mut out = String::new();
    let mut have_term = false;
    let mut start: usize = 0;
    let mut i: usize = 0;
    proof {
        assert(query@.subrange(0, 0) =~= Seq::<char>::empty());
        assert(split_words(query@.subrange(0, 0), scope) =~= seq![Seq::<char>::empty()]);
    }
    for c in it: query.chars()
        invariant
            n == query@.len(),
            it.seq() == query@,
            i == it.index(),
            i <= n,
            start <= i,
            split_words(query@.subrange(0, i as int), scope).len() >= 1,
            split_words(query@.subrange(0, i as int), scope).last() == query@.subrange(
                start as int,
                i as int,
            ),
            out@ == join_terms(
                starred_terms(split_words(query@.subrange(0, i as int), scope).drop_last()),
            ),
            have_term == (starred_terms(
                split_words(query@.subrange(0, i as int), scope).drop_last(),
            ).len() > 0),
    {
        let ghost before = split_words(query@.subrange(0, i as int), scope);
        let ghost next = query@.subrange(0, i + 1);
        assert(c == query@[i as int]);
        assert(next.drop_last() == query@.subrange(0, i as int));
        assert(next.last() == c);
        if c == '+' || c == '-' || c == '@' || c == '>' || c == '<' || c == '(' || c == ')' || c
            == '~' || c == '*' || c == '"' || c == '%' || c == ' ' || (match scope {
            SearchScope::Maps => c == '_',
            SearchScope::Players => false,
        }) {
            let word = query.substring_char(start, i);
            assert(before == before.drop_last().push(before.last()));
            flush_word(&mut out, &mut have_term, word, Ghost(before.drop_last()));
            assert(split_words(next, scope) == before.push(Seq::<char>::empty()));
            assert(split_words(next, scope).drop_last() == before);
            start = i + 1;
            assert(query@.subrange(start as int, i + 1) =~= Seq::<char>::empty());
        } else {
            assert(split_words(next, scope).drop_last() == before.drop_last());
            assert(query@.subrange(start as int, i + 1) =~= query@.subrange(
                start as int,
                i as int,
            ).push(c));
        }
        i = i + 1;
        proof {
            lemma_split_words_nonempty(query@.subrange(0, i as int), scope);
        }
    }
    assert(query@.subrange(0, n as int) == query@);
    let ghost words = split_words(query@, scope);
    assert(words == words.drop_last().push(words.last()));
    let word = query.substring_char(start, n);
    flush_word(&mut out, &mut have_term, word, Ghost(words.drop_last()));
    if have_term {
        Ok(out)
    } else {
        Err(SearchError::InsufficientQuery)
    }
}

} // verus!
