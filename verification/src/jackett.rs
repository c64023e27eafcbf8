//! What the indexer's side of the pipeline decides without talking to it:
//! how search results are ranked, listed and told apart.

use vstd::prelude::*;
use crate::encoding::{base64_encode, base64_text, form_pairs, join_url, joined_url, urlencoded_pairs};
use crate::sizes::{format_bytes, si_size};
use crate::words::{is_space, is_space_char};
use crate::text::{chars_of, string_of, push_all, push_str, push_decimal, push_signed, decimal, signed_decimal, begins_with, same_text, slice_of};
use crate::transmission::Media;

verus! {

/// Where a torrent is to be had: a magnet link, or the torrent file itself
/// in base64.
#[derive(Debug)]
pub struct TorrentLocation {
    pub content: String,
    pub is_magnet: bool,
}

impl Clone for TorrentLocation {
    fn clone(&self) -> (r: Self)
        ensures
            r == *self,
    {
        TorrentLocation { content: self.content.clone(), is_magnet: self.is_magnet }
    }
}

/// One search result of the indexer.
#[derive(Debug)]
pub struct Torrent {
    pub seeders: i64,
    pub magnet_uri: Option<String>,
    pub title: String,
    pub categories: Vec<i64>,
    pub size: u64,
    pub torrent_url: Option<String>,
}

/// A `Torrent` with its texts as character sequences.
pub struct TorrentView {
    pub seeders: i64,
    pub magnet_uri: Option<Seq<char>>,
    pub title: Seq<char>,
    pub categories: Seq<i64>,
    pub size: u64,
    pub torrent_url: Option<Seq<char>>,
}

/// The text of a string that may be missing.
pub open spec fn text_of(s: Option<String>) -> Option<Seq<char>> {
    match s {
        Some(text) => Some(text@),
        None => None,
    }
}

impl View for Torrent {
    type V = TorrentView;

    open spec fn view(&self) -> TorrentView {
        TorrentView {
            seeders: self.seeders,
            magnet_uri: text_of(self.magnet_uri),
            title: self.title@,
            categories: self.categories@,
            size: self.size,
            torrent_url: text_of(self.torrent_url),
        }
    }
}

/// The views of a list of torrents.
pub open spec fn torrent_views(torrents: Seq<Torrent>) -> Seq<TorrentView> {
    torrents.map_values(|t: Torrent| t@)
}

fn copy_numbers(items: &Vec<i64>) -> (out: Vec<i64>)
    ensures
        out@ == items@,
{
    let mut out: Vec<i64> = Vec::new();
    let mut i: usize = 0;
    while i < items.len()
        invariant
            i <= items.len(),
            out@ == items@.take(i as int),
        decreases items.len() - i,
    {
        out.push(items[i]);
        i += 1;
    }
    assert(items@.take(items@.len() as int) =~= items@);
    out
}

impl Clone for Torrent {
    fn clone(&self) -> (r: Self)
        ensures
            r@ == self@,
    {
        Torrent {
            seeders: self.seeders,
            magnet_uri: match &self.magnet_uri {
                Some(m) => Some(m.clone()),
                None => None,
            },
            title: self.title.clone(),
            categories: copy_numbers(&self.categories),
            size: self.size,
            torrent_url: match &self.torrent_url {
                Some(u) => Some(u.clone()),
                None => None,
            },
        }
    }
}

/// The results of one search, as they were shown to the user.
#[derive(Debug)]
pub struct TelegramJackettResponse {
    pub torrents: Vec<Torrent>,
}

impl Clone for TelegramJackettResponse {
    fn clone(&self) -> (r: Self)
        ensures
            torrent_views(r.torrents@) == torrent_views(self.torrents@),
    {
        let mut torrents: Vec<Torrent> = Vec::new();
        let mut i: usize = 0;
        while i < self.torrents.len()
            invariant
                i <= self.torrents.len(),
                torrent_views(torrents@) == torrent_views(self.torrents@).take(i as int),
            decreases self.torrents.len() - i,
        {
            let ghost before = torrent_views(torrents@);
            let t = self.torrents[i].clone();
            torrents.push(t);
            assert(torrent_views(torrents@) =~= before.push(self.torrents@[i as int]@));
            assert(torrent_views(self.torrents@).take(i as int).push(self.torrents@[i as int]@)
                =~= torrent_views(self.torrents@).take(i + 1));
            i += 1;
        }
        assert(torrent_views(self.torrents@).take(self.torrents@.len() as int) =~= torrent_views(
            self.torrents@,
        ));
        TelegramJackettResponse { torrents }
    }
}

/// A category number of movies: from 2000 up to, not including, 3000.
pub open spec fn is_movie_category(c: i64) -> bool {
    2000 <= c < 3000
}

/// A category number of TV shows: from 3000 up to, not including, 4000.
pub open spec fn is_tv_category(c: i64) -> bool {
    3000 <= c < 4000
}

/// Whether one of the categories is a category of movies.
pub fn is_movie(categories: Vec<i64>) -> (r: bool)
    ensures
        r == exists|i: int| 0 <= i < categories@.len() && is_movie_category(categories@[i]),
{
    let mut i: usize = 0;
    while i < categories.len()
        invariant
            i <= categories.len(),
            forall|j: int| 0 <= j < i ==> !is_movie_category(categories@[j]),
        decreases categories.len() - i,
    {
        if categories[i] >= 2000 && categories[i] < 3000 {
            return true;
        }
        i += 1;
    }
    false
}

/// Whether one of the categories is a category of TV shows.
pub fn is_tv_show(categories: Vec<i64>) -> (r: bool)
    ensures
        r == exists|i: int| 0 <= i < categories@.len() && is_tv_category(categories@[i]),
{
    let mut i: usize = 0;
    while i < categories.len()
        invariant
            i <= categories.len(),
            forall|j: int| 0 <= j < i ==> !is_tv_category(categories@[j]),
        decreases categories.len() - i,
    {
        if categories[i] >= 3000 && categories[i] < 4000 {
            return true;
        }
        i += 1;
    }
    false
}

/// The kind of media that a list of categories stands for: TV before movie.
pub open spec fn media_of_categories(categories: Seq<i64>) -> Option<Media> {
    if exists|i: int| 0 <= i < categories.len() && is_tv_category(categories[i]) {
        Some(Media::TV)
    } else if exists|i: int| 0 <= i < categories.len() && is_movie_category(categories[i]) {
        Some(Media::Movie)
    } else {
        None
    }
}

/// `s` with every occurrence of `from` replaced by `to`, read from the left;
/// an occurrence begins only after the one before it has ended.
pub open spec fn replaced(s: Seq<char>, from: Seq<char>, to: Seq<char>) -> Seq<char>
    decreases s.len(),
{
    if from.len() == 0 || s.len() < from.len() {
        s
    } else if from.is_prefix_of(s) {
        to + replaced(s.skip(from.len() as int), from, to)
    } else {
        seq![s[0]] + replaced(s.skip(1), from, to)
    }
}

/// `s` with the HTML entities for the space, `&`, `<`, `>`, `"` and `'`
/// replaced by those characters, one entity after the other in this order:
/// `&nbsp;`, `&amp;`, `&lt;`, `&gt;`, `&quot;`, `&apos;`, `&#039;`.
pub open spec fn decoded(s: Seq<char>) -> Seq<char> {
    replaced(
        replaced(
            replaced(
                replaced(
                    replaced(
                        replaced(replaced(s, "&nbsp;"@, " "@), "&amp;"@, "&"@),
                        "&lt;"@,
                        "<"@,
                    ),
                    "&gt;"@,
                    ">"@,
                ),
                "&quot;"@,
                "\""@,
            ),
            "&apos;"@,
            "'"@,
        ),
        "&#039;"@,
        "'"@,
    )
}

/// `s` with every occurrence of `from` replaced by `to`.
pub fn replace_all(s: &Vec<char>, from: &Vec<char>, to: &Vec<char>) -> (out: Vec<char>)
    ensures
        out@ == replaced(s@, from@, to@),
{
    let mut out: Vec<char> = Vec::new();
    let mut i: usize = 0;
    assert(s@.skip(0) =~= s@);
    while i < s.len()
        invariant
            i <= s.len(),
            replaced(s@, from@, to@) == out@ + replaced(s@.skip(i as int), from@, to@),
        decreases s.len() - i,
    {
        let ghost rest = s@.skip(i as int);
        let ghost before = out@;
        if from.len() == 0 || s.len() - i < from.len() {
            push_all(&mut out, &slice_of(s, i, s.len()));
            assert(s@.subrange(i as int, s@.len() as int) =~= rest);
            assert(s@.skip(s@.len() as int) =~= Seq::<char>::empty());
            assert(out@ + replaced(s@.skip(s@.len() as int), from@, to@) =~= before + rest);
            i = s.len();
        } else if begins_with(&slice_of(s, i, s.len()), from) {
            assert(s@.subrange(i as int, s@.len() as int) =~= rest);
            push_all(&mut out, to);
            assert(rest.skip(from@.len() as int) =~= s@.skip(i + from@.len()));
            assert(out@ + replaced(s@.skip(i + from@.len()), from@, to@) =~= before + (to@
                + replaced(rest.skip(from@.len() as int), from@, to@)));
            i += from.len();
        } else {
            assert(s@.subrange(i as int, s@.len() as int) =~= rest);
            out.push(s[i]);
            assert(rest.skip(1) =~= s@.skip(i + 1));
            assert(out@ + replaced(s@.skip(i + 1), from@, to@) =~= before + (seq![rest[0]]
                + replaced(rest.skip(1), from@, to@)));
            i += 1;
        }
    }
    assert(s@.skip(s@.len() as int) =~= Seq::<char>::empty());
    assert(out@ + Seq::<char>::empty() =~= out@);
    out
}

/// Replaces the HTML entities that a chat client puts in place of the
/// characters of a listing.
pub fn decode_html_entities(input: String) -> (out: String)
    ensures
        out@ == decoded(input@),
{
    let s = chars_of(input.as_str());
    let s = replace_all(&s, &chars_of("&nbsp;"), &chars_of(" "));
    let s = replace_all(&s, &chars_of("&amp;"), &chars_of("&"));
    let s = replace_all(&s, &chars_of("&lt;"), &chars_of("<"));
    let s = replace_all(&s, &chars_of("&gt;"), &chars_of(">"));
    let s = replace_all(&s, &chars_of("&quot;"), &chars_of("\""));
    let s = replace_all(&s, &chars_of("&apos;"), &chars_of("'"));
    let s = replace_all(&s, &chars_of("&#039;"), &chars_of("'"));
    string_of(&s)
}

/// The line of the result numbered `number`:
/// `{number}. {title} - {size}B - {seeders}`.
pub open spec fn torrent_line(number: nat, t: TorrentView) -> Seq<char> {
    decimal(number) + ". "@ + t.title + " - "@ + si_size(t.size) + "B - "@ + signed_decimal(
        t.seeders as int,
    ) + seq!['\n']
}

/// The lines of the first `n` results, numbered from 1.
pub open spec fn torrent_lines(torrents: Seq<TorrentView>, n: int) -> Seq<char>
    decreases n,
{
    if n <= 0 {
        Seq::empty()
    } else {
        torrent_lines(torrents, n - 1) + torrent_line(n as nat, torrents[n - 1])
    }
}

/// The listing of a search's results, one numbered line each.
pub fn format_torrent(response: &TelegramJackettResponse) -> (out: String)
    ensures
        out@ == torrent_lines(torrent_views(response.torrents@), response.torrents@.len() as int),
{
    let ghost views = torrent_views(response.torrents@);
    let mut out: Vec<char> = Vec::new();
    let mut i: usize = 0;
    assert(out@ =~= torrent_lines(views, 0));
    while i < response.torrents.len()
        invariant
            i <= response.torrents.len(),
            views == torrent_views(response.torrents@),
            out@ == torrent_lines(views, i as int),
        decreases response.torrents.len() - i,
    {
        let ghost before = out@;
        let t = &response.torrents[i];
        assert(views[i as int] == t@);
        push_decimal(&mut out, (i + 1) as u64);
        push_str(&mut out, ". ");
        push_str(&mut out, t.title.as_str());
        push_str(&mut out, " - ");
        push_str(&mut out, format_bytes(t.size).as_str());
        push_str(&mut out, "B - ");
        push_signed(&mut out, t.seeders);
        out.push('\n');
        assert(out@ =~= before + torrent_line((i + 1) as nat, views[i as int]));
        i += 1;
    }
    string_of(&out)
}

/// The listing of a search's results as it is sent: set in `<pre>`.
pub fn format_telegram_response(response: TelegramJackettResponse) -> (out: String)
    ensures
        out@ == "<pre>"@ + torrent_lines(
            torrent_views(response.torrents@),
            response.torrents@.len() as int,
        ) + "</pre>"@,
{
    let mut out = chars_of("<pre>");
    push_str(&mut out, format_torrent(&response).as_str());
    push_str(&mut out, "</pre>");
    string_of(&out)
}

/// Where the indexer answers searches, under its base URL.
pub open spec fn search_path() -> Seq<char> {
    "/api/v2.0/indexers/all/results?"@
}

/// The URL of a search, given the form-encoded query.
pub fn search_url_with(base_url: &str, encoded_query: &str) -> (out: String)
    ensures
        out@ == base_url@ + search_path() + encoded_query@,
{
    let mut out = chars_of(base_url);
    push_str(&mut out, "/api/v2.0/indexers/all/results?");
    push_str(&mut out, encoded_query);
    string_of(&out)
}

/// The URL of the search for `query` with the API key `token`: the pairs
/// `apikey` and `Query`, form-encoded, after the search path.
pub fn jackett_search_url(base_url: &str, token: &str, query: &str) -> (out: String)
    ensures
        out@ == base_url@ + search_path() + urlencoded_pairs("apikey"@, token@, "Query"@, query@),
{
    let encoded = form_pairs("apikey", token, "Query", query);
    search_url_with(base_url, encoded.as_str())
}

/// Why a search gave nothing to show.
#[derive(Clone, Copy, Debug, PartialEq, Eq, Structural)]
pub enum SearchError {
    /// The indexer has no indexers configured.
    NoIndexers,
    /// The search found nothing.
    NoResults,
}

impl SearchError {
    /// The words that go with the error.
    pub open spec fn message_text(self) -> Seq<char> {
        match self {
            SearchError::NoIndexers =>
                "Empty indexers. Please add one in your jackett configuration"@,
            SearchError::NoResults => "No results were returned for your search"@,
        }
    }

    /// The words that go with the error.
    pub fn message(&self) -> (out: String)
        ensures
            out@ == self.message_text(),
    {
        match self {
            SearchError::NoIndexers => string_of(
                &chars_of("Empty indexers. Please add one in your jackett configuration"),
            ),
            SearchError::NoResults => string_of(
                &chars_of("No results were returned for your search"),
            ),
        }
    }
}

/// How many results are shown.
pub const SHOWN_RESULTS: usize = 20;

/// Where a result with `seeders` seeders goes in a ranked list: after the
/// last result with at least as many.
pub open spec fn rank_position(ranked: Seq<TorrentView>, seeders: i64) -> int
    decreases ranked.len(),
{
    if ranked.len() == 0 {
        0
    } else if ranked.last().seeders >= seeders {
        ranked.len() as int
    } else {
        rank_position(ranked.drop_last(), seeders)
    }
}

/// The results by falling number of seeders; results with equally many keep
/// the order in which they came.
pub open spec fn ranked(results: Seq<TorrentView>) -> Seq<TorrentView>
    decreases results.len(),
{
    if results.len() == 0 {
        Seq::empty()
    } else {
        let before = ranked(results.drop_last());
        before.insert(rank_position(before, results.last().seeders), results.last())
    }
}

/// Whether the results stand by falling number of seeders.
pub open spec fn by_falling_seeders(list: Seq<TorrentView>) -> bool {
    forall|i: int, j: int| 0 <= i < j < list.len() ==> list[i].seeders >= list[j].seeders
}

/// What a search shows: its 20 best results, or why it shows none.
pub open spec fn ranking(indexers: nat, results: Seq<TorrentView>) -> Result<
    Seq<TorrentView>,
    SearchError,
> {
    if indexers == 0 && results.len() == 0 {
        Err(SearchError::NoIndexers)
    } else if results.len() == 0 {
        Err(SearchError::NoResults)
    } else if results.len() <= SHOWN_RESULTS {
        Ok(ranked(results))
    } else {
        Ok(ranked(results).take(SHOWN_RESULTS as int))
    }
}

proof fn lemma_rank_position(list: Seq<TorrentView>, seeders: i64)
    ensures
        0 <= rank_position(list, seeders) <= list.len(),
        forall|j: int| rank_position(list, seeders) <= j < list.len() ==> list[j].seeders < seeders,
        rank_position(list, seeders) > 0 ==> list[rank_position(list, seeders) - 1].seeders
            >= seeders,
    decreases list.len(),
{
    if list.len() > 0 && list.last().seeders < seeders {
        lemma_rank_position(list.drop_last(), seeders);
        assert forall|j: int| rank_position(list, seeders) <= j < list.len() implies list[j].seeders
            < seeders by {
            if j < list.len() - 1 {
                assert(list.drop_last()[j] == list[j]);
            }
        }
    }
}

/// A ranked list holds the results it was made of, no more and no fewer,
/// by falling number of seeders.
pub proof fn lemma_ranked(results: Seq<TorrentView>)
    ensures
        ranked(results).len() == results.len(),
        ranked(results).to_multiset() == results.to_multiset(),
        by_falling_seeders(ranked(results)),
    decreases results.len(),
{
    broadcast use vstd::seq_lib::group_to_multiset_ensures;

    if results.len() > 0 {
        let before = ranked(results.drop_last());
        let last = results.last();
        let p = rank_position(before, last.seeders);
        lemma_ranked(results.drop_last());
        lemma_rank_position(before, last.seeders);
        vstd::seq_lib::to_multiset_insert(before, p, last);
        vstd::seq_lib::to_multiset_build(results.drop_last(), last);
        assert(results.drop_last().push(last) =~= results);
        let after = ranked(results);
        assert forall|i: int, j: int| 0 <= i < j < after.len() implies after[i].seeders
            >= after[j].seeders by {
            if j < p {
                assert(before[i].seeders >= before[j].seeders);
            } else if j == p {
                if p > 0 {
                    assert(before[i].seeders >= before[p - 1].seeders || i == p - 1);
                }
            } else if i < p {
                assert(before[i].seeders >= before[j - 1].seeders);
            } else if i == p {
            } else {
                assert(before[i - 1].seeders >= before[j - 1].seeders);
            }
        }
    } else {
        assert(ranked(results) =~= results);
    }
}

/// Ranks the results of a search and keeps the 20 best.
pub fn rank_results(indexers: usize, results: &Vec<Torrent>) -> (r: Result<
    TelegramJackettResponse,
    SearchError,
>)
    ensures
        match ranking(indexers as nat, torrent_views(results@)) {
            Ok(list) => r is Ok && torrent_views(r->Ok_0.torrents@) == list,
            Err(e) => r == Err::<TelegramJackettResponse, SearchError>(e),
        },
{
    if results.len() == 0 {
        if indexers == 0 {
            return Err(SearchError::NoIndexers);
        }
        return Err(SearchError::NoResults);
    }
    let ghost views = torrent_views(results@);
    let mut list: Vec<Torrent> = Vec::new();
    let mut i: usize = 0;
    assert(torrent_views(list@) =~= ranked(views.take(0)));
    while i < results.len()
        invariant
            i <= results.len(),
            views == torrent_views(results@),
            torrent_views(list@) == ranked(views.take(i as int)),
            list@.len() == i,
        decreases results.len() - i,
    {
        let t = results[i].clone();
        let ghost before = torrent_views(list@);
        let mut p: usize = list.len();
        assert(before.take(p as int) =~= before);
        while p > 0 && list[p - 1].seeders < t.seeders
            invariant
                p <= list.len(),
                before == torrent_views(list@),
                rank_position(before, t.seeders) == rank_position(before.take(p as int), t.seeders),
            decreases p,
        {
            assert(before.take(p as int).drop_last() =~= before.take(p - 1));
            assert(before.take(p as int).last() == list@[p - 1]@);
            p -= 1;
        }
        proof {
            if p > 0 {
                assert(before.take(p as int).last() == list@[p - 1]@);
            }
            assert(views.take(i + 1).drop_last() =~= views.take(i as int));
            assert(views.take(i + 1).last() == t@);
        }
        list.insert(p, t);
        assert(torrent_views(list@) =~= before.insert(p as int, t@));
        i += 1;
    }
    assert(views.take(views.len() as int) =~= views);
    if list.len() > SHOWN_RESULTS {
        let ghost all = torrent_views(list@);
        list.truncate(SHOWN_RESULTS);
        assert(torrent_views(list@) =~= all.take(SHOWN_RESULTS as int));
    }
    Ok(TelegramJackettResponse { torrents: list })
}

/// `s` without its white space.
pub open spec fn without_spaces(s: Seq<char>) -> Seq<char>
    decreases s.len(),
{
    if s.len() == 0 {
        Seq::empty()
    } else if is_space(s.last()) {
        without_spaces(s.drop_last())
    } else {
        without_spaces(s.drop_last()).push(s.last())
    }
}

/// `s` without its white space.
pub fn strip_spaces(s: &Vec<char>) -> (out: Vec<char>)
    ensures
        out@ == without_spaces(s@),
{
    let mut out: Vec<char> = Vec::new();
    let mut i: usize = 0;
    while i < s.len()
        invariant
            i <= s.len(),
            out@ == without_spaces(s@.take(i as int)),
        decreases s.len() - i,
    {
        assert(s@.take(i + 1).drop_last() =~= s@.take(i as int));
        if !is_space_char(s[i]) {
            out.push(s[i]);
        }
        i += 1;
    }
    assert(s@.take(s@.len() as int) =~= s@);
    out
}

/// Whether `reply` quotes the listing of `torrents`: the two agree once
/// white space is left out and the listing's HTML entities are decoded.
pub open spec fn quotes_listing(reply: Seq<char>, torrents: Seq<TorrentView>) -> bool {
    decoded(without_spaces(torrent_lines(torrents, torrents.len() as int))) == without_spaces(
        reply,
    )
}

/// Where a picked torrent is to be had from.
#[derive(Debug)]
pub enum TorrentSource {
    /// A magnet link.
    Magnet(String),
    /// The URL of a torrent file, yet to be fetched.
    Download(String),
}

/// A `TorrentSource` with its text as a character sequence.
pub enum TorrentSourceView {
    Magnet(Seq<char>),
    Download(Seq<char>),
}

impl View for TorrentSource {
    type V = TorrentSourceView;

    open spec fn view(&self) -> TorrentSourceView {
        match *self {
            TorrentSource::Magnet(link) => TorrentSourceView::Magnet(link@),
            TorrentSource::Download(url) => TorrentSourceView::Download(url@),
        }
    }
}

/// Why a reply picked no torrent.
#[derive(Clone, Copy, Debug, PartialEq, Eq, Structural)]
pub enum PickError {
    /// The reply quotes no listing that is remembered.
    UnknownListing,
    /// The listing has no result of that number.
    NoSuchIndex,
    /// The result has a magnet link, but an empty one.
    EmptyMagnet,
    /// The result has neither a magnet link nor a URL.
    NoLocation,
}

impl PickError {
    /// The words that go with the error.
    pub open spec fn message_text(self) -> Seq<char> {
        match self {
            PickError::UnknownListing => "Couldn't find torrent in the list"@,
            PickError::NoSuchIndex => "No torrent for the given index"@,
            PickError::EmptyMagnet => "Torrent has empty magnet URI. Please select another"@,
            PickError::NoLocation => "Torrent without URI. Please select another"@,
        }
    }

    /// The words that go with the error.
    pub fn message(&self) -> (out: String)
        ensures
            out@ == self.message_text(),
    {
        match self {
            PickError::UnknownListing => string_of(&chars_of("Couldn't find torrent in the list")),
            PickError::NoSuchIndex => string_of(&chars_of("No torrent for the given index")),
            PickError::EmptyMagnet => string_of(
                &chars_of("Torrent has empty magnet URI. Please select another"),
            ),
            PickError::NoLocation => string_of(
                &chars_of("Torrent without URI. Please select another"),
            ),
        }
    }
}

/// Where one result is to be had from, and the kind of media it is: the
/// magnet link where it has one, else its URL.
pub open spec fn source_of(t: TorrentView) -> Result<
    (TorrentSourceView, Option<Media>),
    PickError,
> {
    match t.magnet_uri {
        Some(link) => if link.len() == 0 {
            Err(PickError::EmptyMagnet)
        } else {
            Ok((TorrentSourceView::Magnet(link), media_of_categories(t.categories)))
        },
        None => match t.torrent_url {
            Some(url) => Ok((TorrentSourceView::Download(url), media_of_categories(t.categories))),
            None => Err(PickError::NoLocation),
        },
    }
}

/// The first of the first `n` listings that `reply` quotes, if there is one.
pub open spec fn quoted_listing(reply: Seq<char>, listings: Seq<Seq<TorrentView>>, n: int) -> Option<
    int,
>
    decreases n,
{
    if n <= 0 {
        None
    } else {
        match quoted_listing(reply, listings, n - 1) {
            Some(k) => Some(k),
            None => if quotes_listing(reply, listings[n - 1]) {
                Some(n - 1)
            } else {
                None
            },
        }
    }
}

/// What the number `index`, sent in reply to the listing quoted in `reply`,
/// picks from the remembered listings: the result of that number, counted
/// from 1, in the first listing that the reply quotes.
pub open spec fn picked(index: u16, reply: Seq<char>, listings: Seq<Seq<TorrentView>>) -> Result<
    (TorrentSourceView, Option<Media>),
    PickError,
> {
    match quoted_listing(reply, listings, listings.len() as int) {
        None => Err(PickError::UnknownListing),
        Some(k) => if 1 <= index <= listings[k].len() {
            source_of(listings[k][index - 1])
        } else {
            Err(PickError::NoSuchIndex)
        },
    }
}

/// The listings of the remembered responses.
pub open spec fn listings_of(responses: Seq<TelegramJackettResponse>) -> Seq<Seq<TorrentView>> {
    responses.map_values(|r: TelegramJackettResponse| torrent_views(r.torrents@))
}

fn source_for(t: &Torrent) -> (r: Result<(TorrentSource, Option<Media>), PickError>)
    ensures
        match source_of(t@) {
            Ok((source, media)) => r is Ok && r->Ok_0.0@ == source && r->Ok_0.1 == media,
            Err(e) => r == Err::<(TorrentSource, Option<Media>), PickError>(e),
        },
{
    let source = match &t.magnet_uri {
        Some(link) => {
            if chars_of(link.as_str()).len() == 0 {
                return Err(PickError::EmptyMagnet);
            }
            TorrentSource::Magnet(link.clone())
        },
        None => match &t.torrent_url {
            Some(url) => TorrentSource::Download(url.clone()),
            None => {
                return Err(PickError::NoLocation);
            },
        },
    };
    let media = if is_tv_show(copy_numbers(&t.categories)) {
        Some(Media::TV)
    } else if is_movie(copy_numbers(&t.categories)) {
        Some(Media::Movie)
    } else {
        None
    };
    Ok((source, media))
}

/// Picks the torrent that a numbered reply to a listing names.
pub fn pick_torrent(index: u16, reply_text: &str, responses: &Vec<TelegramJackettResponse>) -> (r:
    Result<(TorrentSource, Option<Media>), PickError>)
    ensures
        match picked(index, reply_text@, listings_of(responses@)) {
            Ok((source, media)) => r is Ok && r->Ok_0.0@ == source && r->Ok_0.1 == media,
            Err(e) => r == Err::<(TorrentSource, Option<Media>), PickError>(e),
        },
{
    let ghost listings = listings_of(responses@);
    let reply = strip_spaces(&chars_of(reply_text));
    let mut k: usize = 0;
    while k < responses.len()
        invariant
            k <= responses.len(),
            listings == listings_of(responses@),
            reply@ == without_spaces(reply_text@),
            quoted_listing(reply_text@, listings, k as int) is None,
        decreases responses.len() - k,
    {
        let response = &responses[k];
        assert(listings[k as int] == torrent_views(response.torrents@));
        let listing = strip_spaces(&chars_of(format_torrent(response).as_str()));
        let shown = chars_of(decode_html_entities(string_of(&listing)).as_str());
        if same_text(&shown, &reply) {
            proof {
                lemma_quoted_listing_stays(reply_text@, listings, k + 1);
            }
            if index >= 1 && (index as usize) <= response.torrents.len() {
                let t = &response.torrents[(index - 1) as usize];
                assert(listings[k as int][index - 1] == t@);
                return source_for(t);
            }
            return Err(PickError::NoSuchIndex);
        }
        k += 1;
    }
    Err(PickError::UnknownListing)
}

proof fn lemma_quoted_listing_stays(reply: Seq<char>, listings: Seq<Seq<TorrentView>>, n: int)
    requires
        0 <= n <= listings.len(),
        quoted_listing(reply, listings, n) is Some,
    ensures
        quoted_listing(reply, listings, listings.len() as int) == quoted_listing(reply, listings, n),
    decreases listings.len() - n,
{
    if n < listings.len() {
        lemma_quoted_listing_stays(reply, listings, n + 1);
    }
}

/// How many redirects are followed.
pub const MAX_REDIRECTS: usize = 5;

/// A torrent file being fetched: the URL to ask, and the redirects followed so far.
#[derive(Debug)]
pub struct TorrentFetch {
    pub current: String,
    pub redirects: usize,
}

/// What the server answered.
#[derive(Debug)]
pub enum FetchEvent {
    /// A redirect, with its `Location` header where it has a readable one.
    Redirect(Option<String>),
    /// Anything else, with its body.
    Body(Vec<u8>),
    /// The request failed, or the body could not be read.
    Failed(String),
}

/// What follows an answer.
#[derive(Debug)]
pub enum FetchStep {
    /// Ask this URL next.
    Get(TorrentFetch),
    /// The fetch is over.
    Done(Result<TorrentLocation, String>),
}

/// A `FetchStep` with its texts as character sequences.
pub enum FetchStepView {
    Get { current: Seq<char>, redirects: nat },
    Found { content: Seq<char>, is_magnet: bool },
    Failed(Seq<char>),
}

impl View for FetchStep {
    type V = FetchStepView;

    open spec fn view(&self) -> FetchStepView {
        match *self {
            FetchStep::Get(fetch) => FetchStepView::Get {
                current: fetch.current@,
                redirects: fetch.redirects as nat,
            },
            FetchStep::Done(Ok(location)) => FetchStepView::Found {
                content: location.content@,
                is_magnet: location.is_magnet,
            },
            FetchStep::Done(Err(message)) => FetchStepView::Failed(message@),
        }
    }
}

/// Where a redirect leads: to the resolved URL, or to the header as it
/// stands where it could not be resolved.
pub open spec fn redirect_target(location: Seq<char>, resolved: Option<Seq<char>>) -> Seq<char> {
    match resolved {
        Some(url) => url,
        None => location,
    }
}

/// What follows a redirect to `location`, which resolves to `resolved`: a
/// magnet link ends the fetch; any other URL is asked next, unless 5
/// redirects were followed already.
pub open spec fn after_redirect(
    redirects: nat,
    location: Seq<char>,
    resolved: Option<Seq<char>>,
) -> FetchStepView {
    let next = redirect_target(location, resolved);
    if "magnet:"@.is_prefix_of(next) {
        FetchStepView::Found { content: next, is_magnet: true }
    } else if redirects >= MAX_REDIRECTS {
        FetchStepView::Failed("Too many redirects while fetching torrent: "@ + next)
    } else {
        FetchStepView::Get { current: next, redirects: redirects + 1 }
    }
}

/// What follows a body of `length` bytes whose base64 text is `encoded`: an
/// empty body fails the fetch, any other is the torrent file.
pub open spec fn after_body(current: Seq<char>, length: nat, encoded: Seq<char>) -> FetchStepView {
    if length == 0 {
        FetchStepView::Failed("Torrent file download returned empty content. URL: "@ + current)
    } else {
        FetchStepView::Found { content: encoded, is_magnet: false }
    }
}

/// The first step of fetching the torrent file at `url`.
pub fn begin_fetch(url: String) -> (step: FetchStep)
    ensures
        step@ == (FetchStepView::Get { current: url@, redirects: 0 }),
{
    FetchStep::Get(TorrentFetch { current: url, redirects: 0 })
}

/// What follows a redirect to `location`, given what it resolves to.
pub fn follow_redirect(fetch: TorrentFetch, location: String, resolved: Option<String>) -> (step:
    FetchStep)
    ensures
        step@ == after_redirect(fetch.redirects as nat, location@, text_of(resolved)),
{
    let next = match resolved {
        Some(url) => url,
        None => location,
    };
    if begins_with(&chars_of(next.as_str()), &chars_of("magnet:")) {
        FetchStep::Done(Ok(TorrentLocation { content: next, is_magnet: true }))
    } else if fetch.redirects >= MAX_REDIRECTS {
        let mut text = chars_of("Too many redirects while fetching torrent: ");
        push_str(&mut text, next.as_str());
        FetchStep::Done(Err(string_of(&text)))
    } else {
        FetchStep::Get(TorrentFetch { current: next, redirects: fetch.redirects + 1 })
    }
}

/// What follows a body of `length` bytes, given its base64 text.
pub fn accept_body(fetch: TorrentFetch, length: usize, encoded: String) -> (step: FetchStep)
    ensures
        step@ == after_body(fetch.current@, length as nat, encoded@),
{
    if length == 0 {
        let mut text = chars_of("Torrent file download returned empty content. URL: ");
        push_str(&mut text, fetch.current.as_str());
        FetchStep::Done(Err(string_of(&text)))
    } else {
        FetchStep::Done(Ok(TorrentLocation { content: encoded, is_magnet: false }))
    }
}

/// What follows the server's answer to the request for `fetch.current`.
pub fn continue_fetch(fetch: TorrentFetch, event: FetchEvent) -> (step: FetchStep)
    ensures
        step@ == match event {
            FetchEvent::Redirect(Some(location)) => after_redirect(
                fetch.redirects as nat,
                location@,
                joined_url(fetch.current@, location@),
            ),
            FetchEvent::Redirect(None) => FetchStepView::Failed(
                "Redirect response without Location header"@,
            ),
            FetchEvent::Body(body) => after_body(
                fetch.current@,
                body@.len(),
                base64_text(body@),
            ),
            FetchEvent::Failed(message) => FetchStepView::Failed(message@),
        },
{
    match event {
        FetchEvent::Redirect(Some(location)) => {
            let resolved = join_url(fetch.current.as_str(), location.as_str());
            follow_redirect(fetch, location, resolved)
        },
        FetchEvent::Redirect(None) => FetchStep::Done(
            Err(string_of(&chars_of("Redirect response without Location header"))),
        ),
        FetchEvent::Body(body) => {
            let encoded = base64_encode(body.as_slice());
            accept_body(fetch, body.len(), encoded)
        },
        FetchEvent::Failed(message) => FetchStep::Done(Err(message)),
    }
}

} // verus!
