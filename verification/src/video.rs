//! The video model: the configuration block and source records a video
//! page carries, and the pure parts of initialization — cutting the
//! player-configuration JSON out of the page text and attaching deciphered
//! signatures to source records.
//!
//! Fetching pages and decoding JSON are left to the calling layer, which
//! hands the results back as plain values.

use vstd::prelude::*;
use vstd::string::StrSliceExecFns;

use crate::text::{between, find_first, find_last, rfind_sub, str_to_chars};
use crate::text::lemma_rfind_from_some;
use crate::tokens::ActionToken;
use crate::transform::{apply_tokens, decipher};

verus! {

/// The static assets a player configuration names.
pub struct Assets {
    pub css: String,
    pub js: String,
}

/// The player configuration block of a video page.
pub struct VideoConfig {
    pub assets: Assets,
    pub html5: bool,
    pub sts: i64,
    pub url: String,
}

/// A configuration with every field empty.
pub open spec fn is_empty_config(c: &VideoConfig) -> bool {
    &&& c.assets.css@.len() == 0
    &&& c.assets.js@.len() == 0
    &&& c.html5 == false
    &&& c.sts == 0
    &&& c.url@.len() == 0
}

impl Default for Assets {
    fn default() -> (r: Assets)
        ensures
            r.css@.len() == 0,
            r.js@.len() == 0,
    {
        Assets { css: String::new(), js: String::new() }
    }
}

impl Default for VideoConfig {
    fn default() -> (r: VideoConfig)
        ensures
            is_empty_config(&r),
    {
        VideoConfig { assets: Assets::default(), html5: false, sts: 0, url: String::new() }
    }
}

/// The mapping a list of record entries holds; on duplicate keys the later
/// entry wins, as for a map that is inserted into in order.
pub open spec fn record_map(es: Seq<(String, String)>) -> Map<Seq<char>, Seq<char>>
    decreases es.len(),
{
    if es.len() == 0 {
        Map::empty()
    } else {
        record_map(es.drop_last()).insert(es.last().0@, es.last().1@)
    }
}

/// One video source: a record of string keys and values, as parsed from
/// the platform's source list.
pub struct SourceRecord {
    entries: Vec<(String, String)>,
}

impl View for SourceRecord {
    type V = Map<Seq<char>, Seq<char>>;

    closed spec fn view(&self) -> Map<Seq<char>, Seq<char>> {
        record_map(self.entries@)
    }
}

impl SourceRecord {
    /// An empty record.
    pub fn new() -> (r: SourceRecord)
        ensures
            r@ == Map::<Seq<char>, Seq<char>>::empty(),
    {
        SourceRecord { entries: Vec::new() }
    }

    /// A copy of the value stored under `key`, if any.
    pub fn get(&self, key: &str) -> (r: Option<String>)
        ensures
            match r {
                Some(v) => self@.contains_key(key@) && v@ == self@[key@],
                None => !self@.contains_key(key@),
            },
    {
        let k: String = key.to_owned();
        let mut j: usize = self.entries.len();
        proof {
            assert(self.entries@.subrange(0, j as int) =~= self.entries@);
        }
        while j > 0
            invariant
                j <= self.entries@.len(),
                self@ == record_map(self.entries@),
                self@.contains_key(key@) == record_map(
                    self.entries@.subrange(0, j as int),
                ).contains_key(key@),
                self@.contains_key(key@) ==> self@[key@] == record_map(
                    self.entries@.subrange(0, j as int),
                )[key@],
                k@ == key@,
            decreases j,
        {
            j = j - 1;
            let ghost pre = self.entries@.subrange(0, j as int + 1);
            proof {
                assert(pre.drop_last() =~= self.entries@.subrange(0, j as int));
                assert(pre.last() == self.entries@[j as int]);
            }
            if self.entries[j].0 == k {
                return Some(self.entries[j].1.clone());
            }
        }
        proof {
            assert(self.entries@.subrange(0, 0) =~= Seq::<(String, String)>::empty());
        }
        None
    }

    /// Stores `value` under `key`, replacing any earlier value.
    pub fn set(&mut self, key: &str, value: String)
        ensures
            final(self)@ == old(self)@.insert(key@, value@),
    {
        let k: String = key.to_owned();
        let ghost before = self.entries@;
        self.entries.push((k, value));
        proof {
            assert(self.entries@.drop_last() =~= before);
            assert(self.entries@.last() == self.entries@[before.len() as int]);
        }
    }

    /// The record's entries; their mapping is the record's value.
    pub fn pairs(&self) -> (r: &Vec<(String, String)>)
        ensures
            record_map(r@) == self@,
    {
        &self.entries
    }
}

/// A video under initialization: its identifier, the information record,
/// the player configuration and the source list.  The sources and the
/// configuration are only handed out once the video is initialized.
pub struct Video {
    id: String,
    info: SourceRecord,
    config: VideoConfig,
    initialized: bool,
    sources: Vec<SourceRecord>,
}

impl Video {
    /// The video's identifier.
    pub closed spec fn spec_id(&self) -> Seq<char> {
        self.id@
    }

    /// Whether initialization has completed.
    pub closed spec fn is_initialized(&self) -> bool {
        self.initialized
    }

    /// The source records.
    pub closed spec fn spec_sources(&self) -> Seq<SourceRecord> {
        self.sources@
    }

    /// The information record.
    pub closed spec fn spec_info(&self) -> SourceRecord {
        self.info
    }

    /// The player configuration.
    pub closed spec fn spec_config(&self) -> &VideoConfig {
        &self.config
    }

    /// A fresh, uninitialized video for the given identifier.
    pub fn new(id: &str) -> (r: Video)
        ensures
            r.spec_id() == id@,
            !r.is_initialized(),
            r.spec_sources().len() == 0,
            r.spec_info()@ == Map::<Seq<char>, Seq<char>>::empty(),
            is_empty_config(r.spec_config()),
    {
        Video {
            id: id.to_owned(),
            info: SourceRecord::new(),
            config: VideoConfig::default(),
            sources: Vec::new(),
            initialized: false,
        }
    }

    /// The video's identifier.
    pub fn id(&self) -> (r: &str)
        ensures
            r@ == self.spec_id(),
    {
        self.id.as_str()
    }

    /// The source records: available exactly once the video is
    /// initialized.
    pub fn video_sources(&self) -> (r: Option<&Vec<SourceRecord>>)
        ensures
            match r {
                Some(v) => self.is_initialized() && v@ == self.spec_sources(),
                None => !self.is_initialized(),
            },
    {
        if self.initialized {
            Some(&self.sources)
        } else {
            None
        }
    }

    /// The player configuration: available exactly once the video is
    /// initialized.
    pub fn video_config(&self) -> (r: Option<&VideoConfig>)
        ensures
            match r {
                Some(v) => self.is_initialized() && v == self.spec_config(),
                None => !self.is_initialized(),
            },
    {
        if self.initialized {
            Some(&self.config)
        } else {
            None
        }
    }

    /// Records the information record fetched for this video.
    pub fn set_info(&mut self, info: SourceRecord)
        ensures
            final(self).spec_info() == info,
            final(self).spec_id() == old(self).spec_id(),
            final(self).is_initialized() == old(self).is_initialized(),
            final(self).spec_sources() == old(self).spec_sources(),
            final(self).spec_config() == old(self).spec_config(),
    {
        self.info = info;
    }

    /// Installs the configuration and the deciphered sources and marks
    /// the video initialized.
    pub fn complete_initialization(&mut self, config: VideoConfig, sources: Vec<SourceRecord>)
        ensures
            final(self).is_initialized(),
            final(self).spec_id() == old(self).spec_id(),
            final(self).spec_info() == old(self).spec_info(),
            *final(self).spec_config() == config,
            final(self).spec_sources() == sources@,
    {
        self.config = config;
        self.sources = sources;
        self.initialized = true;
    }
}

/// The player-configuration JSON a page's text carries: the text between
/// the configuration marker and the last script close, cut before the
/// last loader call.
pub open spec fn config_span(page: Seq<char>) -> Option<Seq<char>> {
    match find_first(page, "ytplayer.config = "@) {
        None => None,
        Some(f) => match find_last(page, "</script>"@) {
            None => None,
            Some(t) => {
                let st = f + "ytplayer.config = "@.len() as int;
                if st > t {
                    None
                } else {
                    let body = page.subrange(st, t);
                    match find_last(body, ";ytplayer.load"@) {
                        None => None,
                        Some(p) => Some(body.subrange(0, p)),
                    }
                }
            },
        },
    }
}

/// Cuts the player-configuration JSON out of a page's text, exactly as
/// `config_span` says; `None` when the page carries none.
pub fn player_config_json(page: &str) -> (r: Option<&str>)
    ensures
        match r {
            Some(c) => config_span(page@) == Some(c@),
            None => config_span(page@) is None,
        },
{
    let json_str = match between(page, "ytplayer.config = ", "</script>") {
        None => {
            return None;
        },
        Some(s) => s,
    };
    let jv = str_to_chars(json_str);
    let marker = str_to_chars(";ytplayer.load");
    let pos = match rfind_sub(&jv, &marker) {
        None => {
            return None;
        },
        Some(p) => p,
    };
    proof {
        lemma_rfind_from_some(json_str@, ";ytplayer.load"@, json_str@.len() - ";ytplayer.load"@.len(), pos as int);
    }
    Some(json_str.substring_char(0, pos))
}

/// What attaching signatures does to one source record: a record without
/// a cipher entry gains an empty one; a record with an empty cipher is
/// untouched; a record with a cipher gains its deciphered signature.
pub open spec fn attach_spec(m: Map<Seq<char>, Seq<char>>, toks: Seq<ActionToken>) -> Map<
    Seq<char>,
    Seq<char>,
> {
    if !m.contains_key("s"@) {
        m.insert("s"@, Seq::empty())
    } else if m["s"@].len() == 0 {
        m
    } else {
        m.insert("signature"@, apply_tokens(m["s"@], toks))
    }
}

/// Replays the deciphering tokens against each record's cipher entry and
/// stores the plaintext signature on the record, exactly as `attach_spec`
/// says for every record.
pub fn attach_signatures(sources: Vec<SourceRecord>, tokens: &Vec<ActionToken>) -> (r: Vec<
    SourceRecord,
>)
    ensures
        r@.len() == sources@.len(),
        forall|i: int| 0 <= i < r@.len() ==> #[trigger] r@[i]@ == attach_spec(sources@[i]@, tokens@),
{
    let ghost orig = sources@;
    let mut rest = sources;
    let mut out: Vec<SourceRecord> = Vec::new();
    while rest.len() > 0
        invariant
            out@.len() + rest@.len() == orig.len(),
            rest@ == orig.subrange(out@.len() as int, orig.len() as int),
            forall|i: int|
                0 <= i < out@.len() ==> #[trigger] out@[i]@ == attach_spec(orig[i]@, tokens@),
        decreases rest@.len(),
    {
        let mut rec = rest.remove(0);
        proof {
            assert(rest@ =~= orig.subrange(out@.len() as int + 1, orig.len() as int));
        }
        match rec.get("s") {
            None => {
                rec.set("s", String::new());
            },
            Some(cipher) => {
                if !cipher.as_str().is_empty() {
                    let sig = decipher(tokens, cipher.as_str());
                    rec.set("signature", sig);
                }
            },
        }
        out.push(rec);
    }
    proof {
        assert(out@.len() == orig.len());
    }
    out
}

} // verus!
