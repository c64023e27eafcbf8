//! Canonical destination paths, one rule for TV episodes and one for movies.

use vstd::prelude::*;
use vstd::seq_lib::lemma_sorted_unique;
use vstd::relations::{sorted_by, total_ordering};
use crate::paths::{sanitized, sanitize_filename};
use crate::text::{chars_of, string_of, push_all, push_str, push_padded2, push_signed, padded2, signed_decimal};
use crate::restructure::metadata::{GuessitMetadata, MetadataView};

verus! {

/// Why no destination could be made for a TV file.
#[derive(Clone, Copy, Debug, PartialEq, Eq, Structural)]
pub enum PathError {
    MissingSeason,
    MissingEpisode,
}

impl PathError {
    /// The words that go with the error.
    pub open spec fn message_text(self) -> Seq<char> {
        match self {
            PathError::MissingSeason => "TV show missing season number"@,
            PathError::MissingEpisode => "TV show missing episode number"@,
        }
    }

    /// The words that go with the error.
    pub fn message(&self) -> (out: String)
        ensures
            out@ == self.message_text(),
    {
        match self {
            PathError::MissingSeason => string_of(&chars_of("TV show missing season number")),
            PathError::MissingEpisode => string_of(&chars_of("TV show missing episode number")),
        }
    }
}

/// The order in which episode numbers are listed.
pub open spec fn ascending() -> spec_fn(u32, u32) -> bool {
    |a: u32, b: u32| a <= b
}

/// The episode tag of a file name: `E01` for one episode, `E01-E02-E03` for several.
pub open spec fn episode_tag(episodes: Seq<u32>) -> Seq<char>
    decreases episodes.len(),
{
    if episodes.len() == 0 {
        Seq::empty()
    } else if episodes.len() == 1 {
        seq!['E'] + padded2(episodes[0] as nat)
    } else {
        episode_tag(episodes.drop_last()) + seq!['-', 'E'] + padded2(episodes.last() as nat)
    }
}

/// The destination of a TV file:
/// `{base}/{title}/Season {SS}/{title} - S{SS}{tag}{extension}`, the title
/// sanitized, the episodes of the tag in ascending order.
pub open spec fn tv_path(base: Seq<char>, md: MetadataView) -> Seq<char>
    recommends
        md.season is Some,
{
    let title = sanitized(md.title);
    let season = padded2(md.season->0 as nat);
    base + seq!['/'] + title + "/Season "@ + season + seq!['/'] + title + " - S"@ + season
        + episode_tag(md.episodes.sort_by(ascending())) + md.extension
}

/// The folder of a movie: `{title} ({year})`, or `{title}` where no year is known.
pub open spec fn movie_folder(md: MetadataView) -> Seq<char> {
    match md.year {
        Some(year) => sanitized(md.title) + " ("@ + signed_decimal(year as int) + seq![')'],
        None => sanitized(md.title),
    }
}

/// The destination of a movie file: `{base}/{folder}/{folder}{extension}`.
pub open spec fn movie_path(base: Seq<char>, md: MetadataView) -> Seq<char> {
    base + seq!['/'] + movie_folder(md) + seq!['/'] + movie_folder(md) + md.extension
}

/// What `generate_tv_path` returns.
pub open spec fn tv_path_result(base: Seq<char>, md: MetadataView) -> Result<Seq<char>, PathError> {
    if md.season is None {
        Err(PathError::MissingSeason)
    } else if md.episodes.len() == 0 {
        Err(PathError::MissingEpisode)
    } else {
        Ok(tv_path(base, md))
    }
}

proof fn lemma_ascending_is_total()
    ensures
        total_ordering(ascending()),
{
}

/// Sorting by `ascending` puts the episode numbers in ascending order, and
/// neither adds nor loses one.
pub proof fn lemma_sorted_episodes(episodes: Seq<u32>)
    ensures
        sorted_by(episodes.sort_by(ascending()), ascending()),
        episodes.sort_by(ascending()).to_multiset() == episodes.to_multiset(),
        episodes.sort_by(ascending()).len() == episodes.len(),
{
    lemma_ascending_is_total();
    episodes.lemma_sort_by_ensures(ascending());
    vstd::seq_lib::to_multiset_len(episodes);
    vstd::seq_lib::to_multiset_len(episodes.sort_by(ascending()));
}

/// Sorts episode numbers in ascending order.
pub fn sort_episodes(episodes: Vec<u32>) -> (out: Vec<u32>)
    ensures
        out@ == episodes@.sort_by(ascending()),
{
    let mut out: Vec<u32> = Vec::new();
    let mut i: usize = 0;
    assert(out@ =~= episodes@.take(0));
    while i < episodes.len()
        invariant
            i <= episodes.len(),
            sorted_by(out@, ascending()),
            out@.to_multiset() == episodes@.take(i as int).to_multiset(),
        decreases episodes.len() - i,
    {
        let x = episodes[i];
        let mut p: usize = 0;
        while p < out.len() && out[p] <= x
            invariant
                p <= out.len(),
                forall|j: int| 0 <= j < p ==> out@[j] <= x,
            decreases out.len() - p,
        {
            p += 1;
        }
        let ghost before = out@;
        proof {
            vstd::seq_lib::to_multiset_insert(before, p as int, x);
            vstd::seq_lib::to_multiset_build(episodes@.take(i as int), x);
            assert(episodes@.take(i as int).push(x) =~= episodes@.take(i + 1));
        }
        out.insert(p, x);
        assert forall|a: int, b: int| 0 <= a < b < out@.len() implies ascending()(
            out@[a],
            out@[b],
        ) by {
            if b < p {
                assert(ascending()(before[a], before[b]));
            } else if b == p {
            } else if a < p {
                assert(ascending()(before[a], before[b - 1]));
            } else if a == p {
                assert(ascending()(before[p as int], before[b - 1]) || b - 1 == p);
            } else {
                assert(ascending()(before[a - 1], before[b - 1]));
            }
        }
        i += 1;
    }
    proof {
        assert(episodes@.take(episodes@.len() as int) =~= episodes@);
        lemma_ascending_is_total();
        episodes@.lemma_sort_by_ensures(ascending());
        lemma_sorted_unique(out@, episodes@.sort_by(ascending()), ascending());
    }
    out
}

fn push_episode_tag(out: &mut Vec<char>, episodes: &Vec<u32>)
    ensures
        final(out)@ == old(out)@ + episode_tag(episodes@),
{
    let mut i: usize = 0;
    while i < episodes.len()
        invariant
            i <= episodes.len(),
            out@ == old(out)@ + episode_tag(episodes@.take(i as int)),
        decreases episodes.len() - i,
    {
        let ghost before = out@;
        if i > 0 {
            out.push('-');
        }
        out.push('E');
        push_padded2(out, episodes[i] as u64);
        proof {
            let now = episodes@.take(i + 1);
            assert(now.drop_last() =~= episodes@.take(i as int));
            assert(now.last() == episodes@[i as int]);
            if i == 0 {
                assert(episodes@.take(0).len() == 0);
                assert(out@ =~= old(out)@ + episode_tag(now));
            } else if i == 1 {
                assert(out@ =~= old(out)@ + episode_tag(now));
            } else {
                assert(out@ =~= old(out)@ + episode_tag(now));
            }
        }
        i += 1;
    }
    assert(episodes@.take(episodes@.len() as int) =~= episodes@);
}

/// The destination of a TV file under `base`. Fails where the season or
/// every episode number is missing.
pub fn generate_tv_path(base: &str, metadata: &GuessitMetadata) -> (r: Result<String, PathError>)
    ensures
        match tv_path_result(base@, metadata@) {
            Ok(path) => r is Ok && r->Ok_0@ == path,
            Err(e) => r == Err::<String, PathError>(e),
        },
{
    let season = match metadata.season {
        Some(s) => s,
        None => { return Err(PathError::MissingSeason); },
    };
    let episodes = metadata.episodes();
    if episodes.len() == 0 {
        return Err(PathError::MissingEpisode);
    }
    let title = chars_of(sanitize_filename(metadata.title.as_str()).as_str());
    let sorted = sort_episodes(episodes);
    let mut out = chars_of(base);
    out.push('/');
    push_all(&mut out, &title);
    push_str(&mut out, "/Season ");
    push_padded2(&mut out, season as u64);
    out.push('/');
    push_all(&mut out, &title);
    push_str(&mut out, " - S");
    push_padded2(&mut out, season as u64);
    push_episode_tag(&mut out, &sorted);
    push_str(&mut out, metadata.extension.as_str());
    assert(out@ =~= tv_path(base@, metadata@));
    Ok(string_of(&out))
}

/// The destination of a movie file under `base`.
pub fn generate_movie_path(base: &str, metadata: &GuessitMetadata) -> (r: Result<String, PathError>)
    ensures
        r is Ok,
        r->Ok_0@ == movie_path(base@, metadata@),
{
    let mut folder = chars_of(sanitize_filename(metadata.title.as_str()).as_str());
    match metadata.year {
        Some(year) => {
            push_str(&mut folder, " (");
            push_signed(&mut folder, year as i64);
            folder.push(')');
        },
        None => {},
    }
    assert(folder@ =~= movie_folder(metadata@));
    let mut out = chars_of(base);
    out.push('/');
    push_all(&mut out, &folder);
    out.push('/');
    push_all(&mut out, &folder);
    push_str(&mut out, metadata.extension.as_str());
    assert(out@ =~= movie_path(base@, metadata@));
    Ok(string_of(&out))
}

/// With a single episode the destination is
/// `{base}/{title}/Season {SS}/{title} - S{SS}E{EE}{extension}`, season and
/// episode at least two digits wide.
pub proof fn lemma_single_episode_tv_path(base: Seq<char>, md: MetadataView)
    requires
        md.season is Some,
        md.episodes.len() == 1,
    ensures
        tv_path_result(base, md) == Ok::<Seq<char>, PathError>(
            base + seq!['/'] + sanitized(md.title) + "/Season "@ + padded2(md.season->0 as nat)
                + seq!['/'] + sanitized(md.title) + " - S"@ + padded2(md.season->0 as nat)
                + seq!['E'] + padded2(md.episodes[0] as nat) + md.extension,
        ),
{
    lemma_ascending_is_total();
    md.episodes.lemma_sort_by_ensures(ascending());
    lemma_sorted_unique(md.episodes, md.episodes.sort_by(ascending()), ascending());
    let prefix = base + seq!['/'] + sanitized(md.title) + "/Season "@ + padded2(
        md.season->0 as nat,
    ) + seq!['/'] + sanitized(md.title) + " - S"@ + padded2(md.season->0 as nat);
    assert(prefix + (seq!['E'] + padded2(md.episodes[0] as nat)) =~= prefix + seq!['E'] + padded2(
        md.episodes[0] as nat,
    ));
}

} // verus!
