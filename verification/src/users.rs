//! Profiles of many users at once, through one batched query per chunk.

use vstd::prelude::*;
use vstd::string::*;
use vstd::slice::slice_subrange;
use vstd::seq_lib::lemma_flatten_concat;
use crate::request::{plain, Method, Request};

verus! {

/// The route of the profile of `username`.
pub open spec fn user_route(username: Seq<char>) -> Seq<char> {
    "/users/"@ + username
}

/// The request for the profile of `username`, which comes with the time at
/// which the account was created.
pub fn get_user(username: &str) -> (request: Request)
    ensures
        request@ == plain(Method::Get, user_route(username@)),
{
    let mut route = String::from_str("/users/");
    route.append(username);
    Request { method: Method::Get, route, per_page: None, all_states: false }
}

/// The character of a decimal digit.
pub open spec fn digit(value: nat) -> char {
    if value == 0 {
        '0'
    } else if value == 1 {
        '1'
    } else if value == 2 {
        '2'
    } else if value == 3 {
        '3'
    } else if value == 4 {
        '4'
    } else if value == 5 {
        '5'
    } else if value == 6 {
        '6'
    } else if value == 7 {
        '7'
    } else if value == 8 {
        '8'
    } else {
        '9'
    }
}

/// A number in decimal, without leading zeros.
pub open spec fn decimal(value: nat) -> Seq<char>
    decreases value,
{
    if value < 10 {
        seq![digit(value)]
    } else {
        decimal(value / 10).push(digit(value % 10))
    }
}

/// The names of a list of strings.
pub open spec fn names(usernames: Seq<&str>) -> Seq<Seq<char>> {
    usernames.map_values(|name: &str| name@)
}

/// The part of the batched query that asks for one user, under the alias
/// `u` and the user's position.
pub open spec fn alias_line(position: nat, username: Seq<char>) -> Seq<char> {
    "u"@ + decimal(position) + ": user(login: \""@ + username + "\") { ...UserFields }"@
}

/// The alias lines of all users, one per line.
pub open spec fn alias_lines(usernames: Seq<Seq<char>>) -> Seq<char>
    decreases usernames.len(),
{
    if usernames.len() == 0 {
        Seq::empty()
    } else if usernames.len() == 1 {
        alias_line(0, usernames[0])
    } else {
        alias_lines(usernames.drop_last()) + "\n"@ + alias_line(
            (usernames.len() - 1) as nat,
            usernames.last(),
        )
    }
}

/// The batched query for the profiles of `usernames`.
pub open spec fn users_query(usernames: Seq<Seq<char>>) -> Seq<char> {
    "query {"@ + alias_lines(usernames)
        + "}\nfragment UserFields on User { login\ncreatedAt\nname\ntwitterUsername }"@
}

fn digit_text(value: usize) -> (text: &'static str)
    requires
        value < 10,
    ensures
        text@ == seq![digit(value as nat)],
{
    proof {
        reveal_strlit("0");
        reveal_strlit("1");
        reveal_strlit("2");
        reveal_strlit("3");
        reveal_strlit("4");
        reveal_strlit("5");
        reveal_strlit("6");
        reveal_strlit("7");
        reveal_strlit("8");
        reveal_strlit("9");
    }
    let text = if value == 0 {
        "0"
    } else if value == 1 {
        "1"
    } else if value == 2 {
        "2"
    } else if value == 3 {
        "3"
    } else if value == 4 {
        "4"
    } else if value == 5 {
        "5"
    } else if value == 6 {
        "6"
    } else if value == 7 {
        "7"
    } else if value == 8 {
        "8"
    } else {
        "9"
    };
    text
}

/// Appends `value` in decimal to `text`.
fn append_decimal(text: &mut String, value: usize)
    ensures
        final(text)@ == old(text)@ + decimal(value as nat),
    decreases value,
{
    if value >= 10 {
        append_decimal(text, value / 10);
    }
    text.append(digit_text(value % 10));
}

/// The batched query for the profiles of `usernames`: one aliased part per
/// user, in the order given, whether or not a login repeats.
pub fn get_users_info(usernames: &[&str]) -> (query: String)
    ensures
        query@ == users_query(names(usernames@)),
{
    let mut query = String::from_str("query {");
    let mut i: usize = 0;
    while i < usernames.len()
        invariant
            i <= usernames.len(),
            query@ == "query {"@ + alias_lines(names(usernames@).take(i as int)),
        decreases usernames.len() - i,
    {
        let ghost done = names(usernames@).take(i as int);
        let ghost more = names(usernames@).take(i + 1);
        if i > 0 {
            query.append("\n");
        }
        query.append("u");
        append_decimal(&mut query, i);
        query.append(": user(login: \"");
        query.append(usernames[i]);
        query.append("\") { ...UserFields }");
        proof {
            assert(more.drop_last() =~= done);
        }
        i += 1;
    }
    assert(names(usernames@).take(i as int) =~= names(usernames@));
    query.append("}\nfragment UserFields on User { login\ncreatedAt\nname\ntwitterUsername }");
    query
}

/// The entries that are there, in their order; the missing ones left out.
pub open spec fn present<T>(results: Seq<Option<T>>) -> Seq<T>
    decreases results.len(),
{
    if results.len() == 0 {
        Seq::empty()
    } else {
        match results.last() {
            Some(found) => present(results.drop_last()).push(found),
            None => present(results.drop_last()),
        }
    }
}

/// The profiles that a batched query found. A user that did not resolve has
/// no entry in the answer; that is no error, and the user is left out.
pub fn found_profiles<T>(results: Vec<Option<T>>) -> (found: Vec<T>)
    ensures
        found@ == present(results@),
{
    let mut found: Vec<T> = Vec::new();
    let ghost all = results@;
    for entry in it: results
        invariant
            it.seq() == all,
            found@ == present(all.take(it.index() as int)),
    {
        proof {
            let upto = all.take(it.index() + 1);
            assert(upto.drop_last() =~= all.take(it.index() as int));
        }
        match entry {
            Some(profile) => {
                found.push(profile);
            },
            None => {},
        }
    }
    assert(all.take(all.len() as int) =~= all);
    found
}

/// The number of entries that are missing.
pub open spec fn absences<T>(results: Seq<Option<T>>) -> nat
    decreases results.len(),
{
    if results.len() == 0 {
        0
    } else if results.last() is None {
        absences(results.drop_last()) + 1
    } else {
        absences(results.drop_last())
    }
}

/// Absence is tolerated: of the users asked for, those that resolved are
/// found and those that did not are left out, so that the two numbers add up
/// to the number of answers. What is found was an answer.
pub proof fn lemma_found_and_absent<T>(results: Seq<Option<T>>)
    ensures
        present(results).len() + absences(results) == results.len(),
        forall|k: int|
            0 <= k < present(results).len() ==> results.contains(Some(#[trigger] present(results)[k])),
    decreases results.len(),
{
    if results.len() > 0 {
        let before = results.drop_last();
        lemma_found_and_absent(before);
        assert forall|k: int| 0 <= k < present(results).len() implies results.contains(
            Some(#[trigger] present(results)[k]),
        ) by {}
    }
}

/// A list cut into consecutive chunks of `size` items; the last chunk holds
/// what is left and may be shorter.
pub open spec fn chunks<A>(items: Seq<A>, size: nat) -> Seq<Seq<A>>
    decreases items.len(),
{
    if size == 0 || items.len() == 0 {
        Seq::empty()
    } else if items.len() <= size {
        seq![items]
    } else {
        seq![items.take(size as int)] + chunks(items.skip(size as int), size)
    }
}

/// The batched queries for a list of chunks.
pub open spec fn chunk_queries(batches: Seq<Seq<Seq<char>>>) -> Seq<Seq<char>> {
    batches.map_values(|batch: Seq<Seq<char>>| users_query(batch))
}

/// The batched queries for `usernames` in chunks of `chunk_size`: one query
/// per chunk, in order. Each query numbers its users from zero.
pub fn get_users_info_chunked(usernames: &[&str], chunk_size: usize) -> (queries: Vec<String>)
    requires
        chunk_size > 0,
    ensures
        queries.deep_view() == chunk_queries(chunks(names(usernames@), chunk_size as nat)),
{
    let mut queries: Vec<String> = Vec::new();
    let mut start: usize = 0;
    let ghost all = names(usernames@);
    let ghost size = chunk_size as nat;
    assert(all.skip(0) =~= all);
    while start < usernames.len()
        invariant
            chunk_size > 0,
            size == chunk_size as nat,
            all == names(usernames@),
            start <= usernames.len(),
            queries.deep_view() + chunk_queries(chunks(all.skip(start as int), size))
                == chunk_queries(chunks(all, size)),
        decreases usernames.len() - start,
    {
        let left: usize = usernames.len() - start;
        let end: usize = if left <= chunk_size {
            usernames.len()
        } else {
            start + chunk_size
        };
        let batch = slice_subrange(usernames, start, end);
        let query = get_users_info(batch);
        let ghost rest = all.skip(start as int);
        queries.push(query);
        proof {
            assert(names(batch@) =~= all.subrange(start as int, end as int));
            if left > chunk_size {
                assert(all.subrange(start as int, end as int) =~= rest.take(size as int));
                assert(rest.skip(size as int) =~= all.skip(end as int));
            }
        }
        start = end;
    }
    queries
}

/// The contents of a list of batches.
pub open spec fn batch_items<T>(batches: Seq<Vec<T>>) -> Seq<Seq<T>> {
    batches.map_values(|batch: Vec<T>| batch@)
}

/// The results of all batches as one list: batch after batch, each in its
/// own order, nothing added and nothing removed.
pub fn flatten_batches<T>(batches: Vec<Vec<T>>) -> (flat: Vec<T>)
    ensures
        flat@ == batch_items(batches@).flatten(),
{
    let mut flat: Vec<T> = Vec::new();
    let ghost all = batches@;
    for batch in outer: batches
        invariant
            outer.seq() == all,
            flat@ == batch_items(all.take(outer.index() as int)).flatten(),
    {
        let ghost before = flat@;
        let ghost items = batch@;
        for item in inner: batch
            invariant
                inner.seq() == items,
                flat@ == before + items.take(inner.index() as int),
        {
            flat.push(item);
        }
        proof {
            let done = batch_items(all.take(outer.index() as int));
            assert(batch_items(all.take(outer.index() + 1)) =~= done.push(items));
            done.lemma_flatten_push(items);
        }
    }
    assert(all.take(all.len() as int) =~= all);
    flat
}

/// Chunking loses nothing: the chunks, put together again, are the list.
pub proof fn lemma_chunks_cover<A>(items: Seq<A>, size: nat)
    requires
        size > 0,
    ensures
        chunks(items, size).flatten() == items,
    decreases items.len(),
{
    if items.len() == 0 {
    } else if items.len() <= size {
        seq![items].lemma_flatten_one_element();
    } else {
        let head = seq![items.take(size as int)];
        let tail = chunks(items.skip(size as int), size);
        lemma_chunks_cover(items.skip(size as int), size);
        lemma_flatten_concat(head, tail);
        head.lemma_flatten_one_element();
    }
}

/// The number of chunks, and so of batched queries, is the length of the
/// list divided by the chunk size, rounded up.
pub proof fn lemma_chunk_count<A>(items: Seq<A>, size: nat)
    requires
        size > 0,
    ensures
        chunks(items, size).len() == (items.len() + size - 1) / (size as int),
    decreases items.len(),
{
    let n = items.len() as int;
    let d = size as int;
    if n == 0 {
        assert((n + d - 1) / d == 0) by (nonlinear_arith)
            requires
                n == 0,
                d > 0,
        ;
    } else if n <= d {
        assert((n + d - 1) / d == 1) by (nonlinear_arith)
            requires
                0 < n <= d,
        ;
    } else {
        lemma_chunk_count(items.skip(d), size);
        assert((n + d - 1) / d == 1 + (n - d + d - 1) / d) by (nonlinear_arith)
            requires
                d > 0,
        ;
    }
}

/// Every chunk holds at least one item and at most `size`; every chunk but
/// the last holds exactly `size`.
pub proof fn lemma_chunk_sizes<A>(items: Seq<A>, size: nat, k: int)
    requires
        size > 0,
        0 <= k < chunks(items, size).len(),
    ensures
        0 < chunks(items, size)[k].len() <= size,
        k + 1 < chunks(items, size).len() ==> chunks(items, size)[k].len() == size,
    decreases items.len(),
{
    if items.len() > size && k > 0 {
        lemma_chunk_sizes(items.skip(size as int), size, k - 1);
    }
}

} // verus!
