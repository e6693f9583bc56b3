//! Playback(): playing sound files. This module holds the arguments, the
//! options, the file paths and the audio format chosen by a file's
//! extension.
use crate::text::{
    chars_contains_folded, chars_lower_is, chars_of, contains_folded, last_index_of,
    lemma_chars_deep_view, lower_is, path_join, has_plain_file_name, plain_extension, path_join_strings, rfind_char, split, split_spec,
    str_views, string_from_str, string_of, subchars, trim, trim_chars, ascii_lower_str,
    ascii_lower_seq, nonempty_pieces, decimal, push_decimal,
};
use crate::DialplanApp;
use vstd::prelude::*;

verus! {

/// How a sound file's bytes become frames.
#[derive(Debug, Clone, Copy, PartialEq, Eq, Structural)]
pub enum AudioFormat {
    /// Raw audio cut into frames of `bytes_per_frame` bytes.
    Raw { bytes_per_frame: usize, codec_id: u32 },
    /// 16-bit PCM in a WAV container, recoded to the channel's codec.
    WavPcm16,
}

/// The format named by a lower-cased extension; anything unknown is raw
/// mu-law.
pub open spec fn format_for(ext: Seq<char>) -> AudioFormat {
    if ext == "ulaw"@ || ext == "ul"@ || ext == "pcmu"@ || ext == "g711u"@ {
        AudioFormat::Raw { bytes_per_frame: 160, codec_id: 0 }
    } else if ext == "alaw"@ || ext == "al"@ || ext == "pcma"@ || ext == "g711a"@ {
        AudioFormat::Raw { bytes_per_frame: 160, codec_id: 8 }
    } else if ext == "sln"@ || ext == "slin"@ || ext == "raw"@ || ext == "sln8"@ || ext == "s16"@ {
        AudioFormat::Raw { bytes_per_frame: 320, codec_id: 0 }
    } else if ext == "wav"@ || ext == "wave"@ {
        AudioFormat::WavPcm16
    } else {
        AudioFormat::Raw { bytes_per_frame: 160, codec_id: 0 }
    }
}

/// Whether a lower-cased extension is one that names a format.
pub open spec fn known_extension(e: Seq<char>) -> bool {
    e == "ulaw"@ || e == "ul"@ || e == "pcmu"@ || e == "g711u"@ || e == "alaw"@ || e == "al"@ || e == "pcma"@ || e == "g711a"@ || e == "sln"@ || e == "slin"@ || e == "raw"@ || e == "sln8"@ || e == "s16"@ || e == "wav"@ || e == "wave"@
}

/// Each known extension (as lower-cased) names its own format: the mu-law
/// names raw mu-law in 160-byte frames, the A-law names raw A-law in
/// 160-byte frames, the signed-linear names raw 16-bit audio in 320-byte
/// frames, and the WAV names 16-bit PCM in a WAV container; only an
/// extension that is none of these falls back to raw mu-law.
pub proof fn lemma_extension_formats(e: Seq<char>)
    ensures
        (e == "ulaw"@ || e == "ul"@ || e == "pcmu"@ || e == "g711u"@)
            ==> format_for(e) == (AudioFormat::Raw { bytes_per_frame: 160, codec_id: 0 }),
        (e == "alaw"@ || e == "al"@ || e == "pcma"@ || e == "g711a"@)
            ==> format_for(e) == (AudioFormat::Raw { bytes_per_frame: 160, codec_id: 8 }),
        (e == "sln"@ || e == "slin"@ || e == "raw"@ || e == "sln8"@ || e == "s16"@)
            ==> format_for(e) == (AudioFormat::Raw { bytes_per_frame: 320, codec_id: 0 }),
        (e == "wav"@ || e == "wave"@)
            ==> format_for(e) == AudioFormat::WavPcm16,
        !known_extension(e) ==> format_for(e) == (AudioFormat::Raw { bytes_per_frame: 160, codec_id: 0 }),
{
    reveal_strlit("ulaw");
    reveal_strlit("ul");
    reveal_strlit("pcmu");
    reveal_strlit("g711u");
    reveal_strlit("alaw");
    reveal_strlit("al");
    reveal_strlit("pcma");
    reveal_strlit("g711a");
    reveal_strlit("sln");
    reveal_strlit("slin");
    reveal_strlit("raw");
    reveal_strlit("sln8");
    reveal_strlit("s16");
    reveal_strlit("wav");
    reveal_strlit("wave");
    if e == "ulaw"@ {
        assert(e[0] == 'u' && e[1] == 'l' && e[2] == 'a' && e[3] == 'w');
    }
    if e == "ul"@ {
        assert(e[0] == 'u' && e[1] == 'l');
    }
    if e == "pcmu"@ {
        assert(e[0] == 'p' && e[1] == 'c' && e[2] == 'm' && e[3] == 'u');
    }
    if e == "g711u"@ {
        assert(e[0] == 'g' && e[1] == '7' && e[2] == '1' && e[3] == '1' && e[4] == 'u');
    }
    if e == "alaw"@ {
        assert(e[0] == 'a' && e[1] == 'l' && e[2] == 'a' && e[3] == 'w');
    }
    if e == "al"@ {
        assert(e[0] == 'a' && e[1] == 'l');
    }
    if e == "pcma"@ {
        assert(e[0] == 'p' && e[1] == 'c' && e[2] == 'm' && e[3] == 'a');
    }
    if e == "g711a"@ {
        assert(e[0] == 'g' && e[1] == '7' && e[2] == '1' && e[3] == '1' && e[4] == 'a');
    }
    if e == "sln"@ {
        assert(e[0] == 's' && e[1] == 'l' && e[2] == 'n');
    }
    if e == "slin"@ {
        assert(e[0] == 's' && e[1] == 'l' && e[2] == 'i' && e[3] == 'n');
    }
    if e == "raw"@ {
        assert(e[0] == 'r' && e[1] == 'a' && e[2] == 'w');
    }
    if e == "sln8"@ {
        assert(e[0] == 's' && e[1] == 'l' && e[2] == 'n' && e[3] == '8');
    }
    if e == "s16"@ {
        assert(e[0] == 's' && e[1] == '1' && e[2] == '6');
    }
    if e == "wav"@ {
        assert(e[0] == 'w' && e[1] == 'a' && e[2] == 'v');
    }
    if e == "wave"@ {
        assert(e[0] == 'w' && e[1] == 'a' && e[2] == 'v' && e[3] == 'e');
    }
}

/// What `std::path::Path::extension` gives for a path, as text.
pub uninterp spec fn path_extension(p: Seq<char>) -> Option<Seq<char>>;

/// The extension of a path.
/// Calls `std::path::Path::extension` and converts the result to a
/// `String`. Where the path's file name is plainly its last component, the
/// contract states the documented rule: the part of the file name after its
/// last `.`, if that `.` is not the name's first character. Otherwise (a
/// path ending in `/`, `.` or `..`, or an empty one, where std first
/// normalises the path's components) it only names the result.
#[verifier::external_body]
fn extension_of(p: &str) -> (r: Option<String>)
    ensures
        match r {
            Some(e) => path_extension(p@) == Some(e@),
            None => path_extension(p@) is None,
        },
        has_plain_file_name(p@) ==> match r {
            Some(e) => plain_extension(p@) == Some(e@),
            None => plain_extension(p@) is None,
        },
{
    std::path::Path::new(p).extension().and_then(|e| e.to_str()).map(|e| e.to_string())
}

fn eq_lit(v: &Vec<char>, s: &str) -> (r: bool)
    ensures
        r == (v@ == s@),
{
    let w = chars_of(s);
    crate::text::chars_equal(v, &w)
}

impl AudioFormat {
    /// The format for an extension, compared without regard to ASCII case.
    pub fn from_extension(ext: &str) -> (r: Self)
        ensures
            r == format_for(ascii_lower_seq(ext@)),
    {
        let e = chars_of(ascii_lower_str(ext).as_str());
        if eq_lit(&e, "ulaw") || eq_lit(&e, "ul") || eq_lit(&e, "pcmu") || eq_lit(&e, "g711u") {
            AudioFormat::Raw { bytes_per_frame: 160, codec_id: 0 }
        } else if eq_lit(&e, "alaw") || eq_lit(&e, "al") || eq_lit(&e, "pcma") || eq_lit(&e, "g711a") {
            AudioFormat::Raw { bytes_per_frame: 160, codec_id: 8 }
        } else if eq_lit(&e, "sln") || eq_lit(&e, "slin") || eq_lit(&e, "raw") || eq_lit(&e, "sln8")
            || eq_lit(&e, "s16") {
            AudioFormat::Raw { bytes_per_frame: 320, codec_id: 0 }
        } else if eq_lit(&e, "wav") || eq_lit(&e, "wave") {
            AudioFormat::WavPcm16
        } else {
            AudioFormat::Raw { bytes_per_frame: 160, codec_id: 0 }
        }
    }

    /// The format for a file path, by its extension (none counts as an
    /// unknown extension).
    pub fn from_path(path: &str) -> (r: Self)
        ensures
            r == format_for(
                match path_extension(path@) {
                    Some(e) => ascii_lower_seq(e),
                    None => Seq::<char>::empty(),
                },
            ),
            has_plain_file_name(path@) ==> r == format_for(
                match plain_extension(path@) {
                    Some(e) => ascii_lower_seq(e),
                    None => Seq::<char>::empty(),
                },
            ),
    {
        match extension_of(path) {
            Some(e) => AudioFormat::from_extension(e.as_str()),
            None => {
                let r = AudioFormat::from_extension("");
                proof {
                    reveal_strlit("");
                    assert(ascii_lower_seq(""@) =~= Seq::<char>::empty());
                }
                r
            },
        }
    }
}

/// The options of Playback().
#[derive(Debug, Clone, Default, PartialEq, Eq, Structural)]
pub struct PlaybackOptions {
    /// `skip`: do nothing when the channel is not answered.
    pub skip: bool,
    /// `noanswer`: play without answering.
    pub noanswer: bool,
}

/// Whether one of the first `k` pieces, trimmed and lower-cased, is `w`.
pub open spec fn option_among(parts: Seq<Seq<char>>, w: Seq<char>, k: int) -> bool
    decreases k,
{
    k > 0 && (option_among(parts, w, k - 1) || lower_is(trim(parts[k - 1]), w))
}

/// Whether some comma-separated option, trimmed and lower-cased, is `w`.
pub open spec fn has_option(opts: Seq<char>, w: Seq<char>) -> bool {
    option_among(split_spec(opts, ','), w, split_spec(opts, ',').len() as int)
}

impl PlaybackOptions {
    /// Reads comma-separated options, in any case; unknown ones are
    /// ignored.
    pub fn parse(opts: &str) -> (r: Self)
        ensures
            r.skip == has_option(opts@, "skip"@),
            r.noanswer == has_option(opts@, "noanswer"@),
    {
        let v = chars_of(opts);
        let parts = split(&v, ',');
        let skip_w = chars_of("skip");
        let noanswer_w = chars_of("noanswer");
        let mut skip = false;
        let mut noanswer = false;
        let mut k: usize = 0;
        while k < parts.len()
            invariant
                k <= parts.len(),
                parts.deep_view() == split_spec(opts@, ','),
                skip_w@ == "skip"@,
                noanswer_w@ == "noanswer"@,
                skip == option_among(split_spec(opts@, ','), "skip"@, k as int),
                noanswer == option_among(split_spec(opts@, ','), "noanswer"@, k as int),
            decreases parts.len() - k,
        {
            proof {
                lemma_chars_deep_view(parts@[k as int]);
            }
            let t = trim_chars(&parts[k]);
            if chars_lower_is(&t, &skip_w) {
                skip = true;
            }
            if chars_lower_is(&t, &noanswer_w) {
                noanswer = true;
            }
            k = k + 1;
        }
        PlaybackOptions { skip, noanswer }
    }
}

/// How playing ended.
#[derive(Debug, Clone, Copy, PartialEq, Eq, Structural)]
pub enum PlaybackStatus {
    Success,
    Failed,
    Interrupted(char),
}

/// The `Playback()` dialplan application.
#[derive(Debug)]
pub struct AppPlayback;

impl DialplanApp for AppPlayback {
    fn name(&self) -> (r: &str)
        ensures
            r@ == "Playback"@,
    {
        "Playback"
    }

    fn description(&self) -> (r: &str)
        ensures
            r@ == "Play a file"@,
    {
        "Play a file"
    }
}

/// Whether the text after the last comma reads as options: lower-cased,
/// it mentions `skip`, `noanswer`, `say` or `mix`.
pub open spec fn looks_like_options(t: Seq<char>) -> bool {
    contains_folded(trim(t), "skip"@) || contains_folded(trim(t), "noanswer"@) || contains_folded(
        trim(t),
        "say"@,
    ) || contains_folded(trim(t), "mix"@)
}

/// The file list and the option text of `files[,options]`.
pub open spec fn playback_split(args: Seq<char>) -> (Seq<char>, Option<Seq<char>>) {
    let c = last_index_of(args, ',');
    if c >= 0 && looks_like_options(args.skip(c + 1)) {
        (args.take(c), Some(args.skip(c + 1)))
    } else {
        (args, None)
    }
}

/// The sound directory relative file names are found in.
pub open spec fn sounds_dir() -> Seq<char> {
    "/var/lib/asterisk/sounds"@
}

impl AppPlayback {
    /// Splits the arguments into the file list and the options.
    pub fn parse_args(args: &str) -> (r: (String, PlaybackOptions))
        ensures
            r.0@ == playback_split(args@).0,
            r.1.skip == match playback_split(args@).1 {
                Some(o) => has_option(o, "skip"@),
                None => false,
            },
            r.1.noanswer == match playback_split(args@).1 {
                Some(o) => has_option(o, "noanswer"@),
                None => false,
            },
    {
        let v = chars_of(args);
        match rfind_char(&v, ',') {
            Some(c) => {
                let tail = subchars(&v, c + 1, v.len());
                assert(tail@ =~= args@.skip(c + 1));
                let t = trim_chars(&tail);
                let looks = chars_contains_folded(&t, &chars_of("skip")) || chars_contains_folded(
                    &t,
                    &chars_of("noanswer"),
                ) || chars_contains_folded(&t, &chars_of("say")) || chars_contains_folded(
                    &t,
                    &chars_of("mix"),
                );
                if looks {
                    let files = subchars(&v, 0, c);
                    assert(files@ =~= args@.take(c as int));
                    let ts = string_of(&tail);
                    return (string_of(&files), PlaybackOptions::parse(ts.as_str()));
                }
            },
            None => {},
        }
        (string_of(&v), PlaybackOptions { skip: false, noanswer: false })
    }

    /// The path of a sound file: absolute as it is, relative under the
    /// sound directory.
    pub fn resolve_file_path(filename: &str) -> (r: String)
        ensures
            r@ == path_join(sounds_dir(), filename@),
    {
        let dir = string_from_str("/var/lib/asterisk/sounds");
        proof {
            reveal_strlit("/var/lib/asterisk/sounds");
        }
        path_join_strings(&dir, &filename.to_owned())
    }

    /// The files of an `&`-separated list, without the empty entries.
    pub fn file_names(files: &str) -> (r: Vec<String>)
        ensures
            str_views(r@) == nonempty_pieces(split_spec(files@, '&')),
    {
        let v = chars_of(files);
        let parts = split(&v, '&');
        let mut r: Vec<String> = Vec::new();
        let mut k: usize = 0;
        while k < parts.len()
            invariant
                k <= parts.len(),
                str_views(r@) == nonempty_pieces(parts.deep_view().take(k as int)),
            decreases parts.len() - k,
        {
            proof {
                lemma_chars_deep_view(parts@[k as int]);
            }
            assert(parts.deep_view().take(k + 1).drop_last() =~= parts.deep_view().take(k as int));
            if parts[k].len() > 0 {
                let ghost before = r@;
                r.push(string_of(&parts[k]));
                assert(str_views(r@) =~= str_views(before).push(parts.deep_view()[k as int]));
            }
            k = k + 1;
        }
        assert(parts.deep_view().take(parts.len() as int) =~= parts.deep_view());
        r
    }
}

/// The data cut into frames of `n` bytes, the last one possibly shorter.
pub open spec fn chunks(d: Seq<u8>, n: nat) -> Seq<Seq<u8>>
    decreases d.len(),
{
    if n == 0 || d.len() == 0 {
        Seq::empty()
    } else if d.len() <= n {
        seq![d]
    } else {
        seq![d.take(n as int)] + chunks(d.skip(n as int), n)
    }
}

/// Cuts raw audio into frames of `bytes_per_frame` bytes; a short last
/// frame is kept and played as it is. No frames for a frame size of 0.
pub fn split_into_frames(data: &[u8], bytes_per_frame: usize) -> (r: Vec<Vec<u8>>)
    ensures
        r@.map_values(|f: Vec<u8>| f@) == chunks(data@, bytes_per_frame as nat),
{
    let mut frames: Vec<Vec<u8>> = Vec::new();
    if bytes_per_frame == 0 {
        assert(frames@.map_values(|f: Vec<u8>| f@) =~= Seq::<Seq<u8>>::empty());
        return frames;
    }
    let n = data.len();
    let mut pos: usize = 0;
    proof {
        assert(data@.skip(0) =~= data@);
        assert(frames@.map_values(|f: Vec<u8>| f@) =~= Seq::<Seq<u8>>::empty());
        assert(Seq::<Seq<u8>>::empty() + chunks(data@, bytes_per_frame as nat) =~= chunks(data@, bytes_per_frame as nat));
    }
    while pos < n
        invariant
            bytes_per_frame > 0,
            n == data@.len(),
            pos <= n,
            frames@.map_values(|f: Vec<u8>| f@) + chunks(data@.skip(pos as int), bytes_per_frame as nat)
                == chunks(data@, bytes_per_frame as nat),
        decreases n - pos,
    {
        let end = if n - pos > bytes_per_frame {
            pos + bytes_per_frame
        } else {
            n
        };
        let mut frame: Vec<u8> = Vec::new();
        let mut i = pos;
        while i < end
            invariant
                pos <= i <= end,
                end <= n,
                n == data@.len(),
                frame@ == data@.subrange(pos as int, i as int),
            decreases end - i,
        {
            frame.push(data[i]);
            assert(data@.subrange(pos as int, i + 1) =~= data@.subrange(pos as int, i as int).push(data@[i as int]));
            i = i + 1;
        }
        let ghost rest = data@.skip(pos as int);
        let ghost before = frames@.map_values(|f: Vec<u8>| f@);
        frames.push(frame);
        proof {
            assert(frames@.map_values(|f: Vec<u8>| f@) =~= before.push(data@.subrange(pos as int, end as int)));
            if end == n {
                assert(rest =~= data@.subrange(pos as int, end as int));
                assert(data@.skip(end as int) =~= Seq::<u8>::empty());
                assert(chunks(rest, bytes_per_frame as nat) == seq![rest]);
                assert(chunks(data@.skip(end as int), bytes_per_frame as nat) =~= Seq::<Seq<u8>>::empty());
            } else {
                assert(rest.take(bytes_per_frame as int) =~= data@.subrange(pos as int, end as int));
                assert(rest.skip(bytes_per_frame as int) =~= data@.skip(end as int));
            }
            assert(before.push(data@.subrange(pos as int, end as int)) + chunks(data@.skip(end as int), bytes_per_frame as nat)
                =~= before + chunks(rest, bytes_per_frame as nat));
        }
        pos = end;
    }
    proof {
        assert(data@.skip(n as int) =~= Seq::<u8>::empty());
        assert(frames@.map_values(|f: Vec<u8>| f@) + Seq::<Seq<u8>>::empty() =~= frames@.map_values(|f: Vec<u8>| f@));
    }
    frames
}

/// The codec a WAV file is encoded to for the channel: G.711 u-law (0) or
/// A-law (8) as negotiated; any other or none is refused.
pub fn wav_codec(negotiated_codec: Option<u32>) -> (r: Result<u32, String>)
    ensures
        match negotiated_codec {
            Some(c) => if c == 0 || c == 8 {
                r == Ok::<u32, String>(c)
            } else {
                r matches Err(e) && e@ == "unsupported negotiated codec PT "@ + decimal(c as nat)
            },
            None => r matches Err(e) && e@ == "channel has no negotiated audio codec"@,
        },
{
    match negotiated_codec {
        Some(c) => if c == 0 || c == 8 {
            Ok(c)
        } else {
            let mut e = string_from_str("unsupported negotiated codec PT ");
            push_decimal(&mut e, c as u64);
            Err(e)
        },
        None => Err(string_from_str("channel has no negotiated audio codec")),
    }
}

} // verus!
