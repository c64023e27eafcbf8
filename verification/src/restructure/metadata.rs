//! What the metadata oracle says of one file, and how its answer is read.

use vstd::prelude::*;
use crate::paths::{extension, extension_of};
use crate::text::{chars_of, string_of};

verus! {

/// The `episode` field of an oracle answer, as far as it is read: a number,
/// a list, or anything else. A number that is no unsigned integer is `None`.
#[derive(Debug)]
pub enum EpisodeValue {
    Number(Option<u64>),
    List(Vec<Option<u64>>),
    Other,
}

/// The metadata inferred from one file name.
#[derive(Debug)]
pub struct GuessitMetadata {
    pub title: String,
    pub year: Option<i32>,
    pub season: Option<u32>,
    pub episode: EpisodeValue,
    pub extension: String,
}

/// Inferred metadata with its episode numbers as one ordered sequence.
pub struct MetadataView {
    pub title: Seq<char>,
    pub year: Option<i32>,
    pub season: Option<u32>,
    pub episodes: Seq<u32>,
    pub extension: Seq<char>,
}

/// An episode number is kept in 32 bits.
pub open spec fn episode_number(raw: u64) -> u32 {
    (raw % 0x1_0000_0000) as u32
}

/// The episode number that one list item stands for, if any.
pub open spec fn listed_episode(item: Option<u64>) -> Option<u32> {
    match item {
        Some(raw) => Some(episode_number(raw)),
        None => None,
    }
}

/// The episode numbers that an `episode` field stands for: one for a number,
/// one for each unsigned integer of a list in the list's order, none otherwise.
pub open spec fn episodes_of(value: EpisodeValue) -> Seq<u32> {
    match value {
        EpisodeValue::Number(Some(raw)) => seq![episode_number(raw)],
        EpisodeValue::Number(None) => Seq::empty(),
        EpisodeValue::List(items) => items@.filter_map(|item: Option<u64>| listed_episode(item)),
        EpisodeValue::Other => Seq::empty(),
    }
}

impl View for GuessitMetadata {
    type V = MetadataView;

    open spec fn view(&self) -> MetadataView {
        MetadataView {
            title: self.title@,
            year: self.year,
            season: self.season,
            episodes: episodes_of(self.episode),
            extension: self.extension@,
        }
    }
}

impl Clone for EpisodeValue {
    fn clone(&self) -> (r: Self)
        ensures
            episodes_of(r) == episodes_of(*self),
    {
        match self {
            EpisodeValue::Number(n) => EpisodeValue::Number(*n),
            EpisodeValue::List(items) => {
                let mut copy: Vec<Option<u64>> = Vec::new();
                let mut i: usize = 0;
                while i < items.len()
                    invariant
                        i <= items.len(),
                        copy@ == items@.take(i as int),
                    decreases items.len() - i,
                {
                    copy.push(items[i]);
                    i += 1;
                }
                assert(copy@ =~= items@);
                EpisodeValue::List(copy)
            },
            EpisodeValue::Other => EpisodeValue::Other,
        }
    }
}

impl Clone for GuessitMetadata {
    fn clone(&self) -> (r: Self)
        ensures
            r@ == self@,
    {
        GuessitMetadata {
            title: self.title.clone(),
            year: self.year,
            season: self.season,
            episode: self.episode.clone(),
            extension: self.extension.clone(),
        }
    }
}

impl GuessitMetadata {
    /// The episode numbers of the file, in the oracle's order.
    pub fn episodes(&self) -> (out: Vec<u32>)
        ensures
            out@ == self@.episodes,
    {
        match &self.episode {
            EpisodeValue::Number(Some(raw)) => {
                let mut out: Vec<u32> = Vec::new();
                out.push(low_bits(*raw));
                out
            },
            EpisodeValue::List(items) => {
                let ghost pick = |item: Option<u64>| listed_episode(item);
                let mut out: Vec<u32> = Vec::new();
                let mut i: usize = 0;
                while i < items.len()
                    invariant
                        i <= items.len(),
                        pick == (|item: Option<u64>| listed_episode(item)),
                        out@ == items@.take(i as int).filter_map(pick),
                    decreases items.len() - i,
                {
                    assert(items@.take(i + 1).drop_last() =~= items@.take(i as int));
                    match items[i] {
                        Some(raw) => {
                            out.push(low_bits(raw));
                        },
                        None => {},
                    }
                    i += 1;
                }
                assert(items@.take(items@.len() as int) =~= items@);
                out
            },
            _ => Vec::new(),
        }
    }
}

fn low_bits(raw: u64) -> (r: u32)
    ensures
        r == episode_number(raw),
{
    (raw % 0x1_0000_0000) as u32
}

/// The extension that a file's metadata carries: that of the file's own
/// path, `.mkv` where the path has none.
pub open spec fn source_extension(file_path: Seq<char>) -> Seq<char> {
    if extension(file_path).len() == 0 {
        ".mkv"@
    } else {
        extension(file_path)
    }
}

/// Replaces whatever extension the oracle gave by that of the file itself.
pub fn with_source_extension(metadata: GuessitMetadata, file_path: &str) -> (out: GuessitMetadata)
    ensures
        out@ == (MetadataView { extension: source_extension(file_path@), ..metadata@ }),
{
    let ext = extension_of(file_path);
    let ext = if chars_of(ext.as_str()).len() == 0 {
        string_of(&chars_of(".mkv"))
    } else {
        ext
    };
    GuessitMetadata {
        title: metadata.title,
        year: metadata.year,
        season: metadata.season,
        episode: metadata.episode,
        extension: ext,
    }
}

} // verus!
