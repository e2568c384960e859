use crate::duration::{decimal, duration_text, format_duration, push_decimal};
use crate::eligibility::replay_extension;
use crate::frame_rate::{is_positive_rate, length_secs, FrameRate};
use vstd::prelude::*;

verus! {

/// The match metadata that a replay header gives.
pub struct Properties {
    pub team_size: u8,
    pub team0_score: Option<u8>,
    pub team1_score: Option<u8>,
    pub record_fps: FrameRate,
    pub map_name: String,
    pub date: String,
    pub num_frames: u32,
    pub match_type: String,
}

/// Whether `c` may not stand in a file name: a path separator, a character
/// that common file systems refuse, or a control character.
pub open spec fn is_unsafe_char(c: char) -> bool {
    c == '/' || c == '\\' || c == ':' || c == '*' || c == '?' || c == '"' || c == '<' || c == '>'
        || c == '|' || (c as u32) < 32
}

/// `c`, or `_` in place of a character that may not stand in a file name.
pub open spec fn safe_char(c: char) -> char {
    if is_unsafe_char(c) {
        '_'
    } else {
        c
    }
}

/// `s` with every character that may not stand in a file name replaced by `_`.
pub open spec fn sanitized(s: Seq<char>) -> Seq<char> {
    s.map_values(|c: char| safe_char(c))
}

/// The mode label of a match between teams of `n` players: `nvn`.
pub open spec fn mode_text(n: nat) -> Seq<char> {
    decimal(n) + seq!['v'] + decimal(n)
}

/// A team's score, zero where the header gives none.
pub open spec fn score_value(s: Option<u8>) -> nat {
    match s {
        Some(v) => v as nat,
        None => 0,
    }
}

/// The file name of a match that lasted `secs` seconds:
/// `date - mode - map (type) - s0-s1 - length.replay`.
pub open spec fn name_text(
    date: Seq<char>,
    team_size: nat,
    map_name: Seq<char>,
    match_type: Seq<char>,
    score0: nat,
    score1: nat,
    secs: nat,
) -> Seq<char> {
    sanitized(date) + seq![' ', '-', ' '] + mode_text(team_size) + seq![' ', '-', ' ']
        + sanitized(map_name) + seq![' ', '('] + sanitized(match_type) + seq![')', ' ', '-', ' ']
        + decimal(score0) + seq!['-'] + decimal(score1) + seq![' ', '-', ' ']
        + duration_text(secs, 0) + replay_extension()
}

impl Properties {
    /// The file name that these properties give, where the frame rate is positive.
    pub open spec fn target_name(&self) -> Seq<char> {
        name_text(
            self.date@,
            self.team_size as nat,
            self.map_name@,
            self.match_type@,
            score_value(self.team0_score),
            score_value(self.team1_score),
            length_secs(self.num_frames as nat, self.record_fps.bits),
        )
    }

    /// Whether a file name can be made from these properties.
    pub open spec fn has_length(&self) -> bool {
        is_positive_rate(self.record_fps.bits)
    }

    /// The file name of this match, or `None` where the frame rate is not
    /// positive, so that no length can be given.
    pub fn file_name(&self) -> (r: Option<String>)
        ensures
            r is Some <==> self.has_length(),
            r matches Some(n) ==> n@ == self.target_name(),
    {
        let length = match game_length(self) {
            Some(l) => l,
            None => {
                return None;
            },
        };
        let mut out = String::new();
        push_sanitized(&mut out, self.date.as_str());
        out.append(" - ");
        let mode = mode_name(self);
        out.append(mode.as_str());
        out.append(" - ");
        push_sanitized(&mut out, self.map_name.as_str());
        out.append(" (");
        push_sanitized(&mut out, self.match_type.as_str());
        out.append(") - ");
        push_decimal(&mut out, score_or_zero(self.team0_score));
        out.append("-");
        push_decimal(&mut out, score_or_zero(self.team1_score));
        out.append(" - ");
        out.append(length.as_str());
        out.append(".replay");
        proof {
            reveal_strlit(" - ");
            reveal_strlit(" (");
            reveal_strlit(") - ");
            reveal_strlit("-");
            reveal_strlit(".replay");
            assert(out@ =~= self.target_name());
        }
        Some(out)
    }
}

fn score_or_zero(s: Option<u8>) -> (r: u64)
    ensures
        r == score_value(s),
{
    match s {
        Some(v) => v as u64,
        None => 0,
    }
}

/// Appends `s` to `out`, with `_` in place of each character that may not
/// stand in a file name.
pub fn push_sanitized(out: &mut String, s: &str)
    ensures
        final(out)@ == old(out)@ + sanitized(s@),
{
    let n = s.unicode_len();
    let mut i: usize = 0;
    while i < n
        invariant
            n == s@.len(),
            i <= n,
            out@ == old(out)@ + sanitized(s@.subrange(0, i as int)),
        decreases n - i,
    {
        let c = s.get_char(i);
        let ghost before = out@;
        if c == '/' || c == '\\' || c == ':' || c == '*' || c == '?' || c == '"' || c == '<' || c
            == '>' || c == '|' || (c as u32) < 32 {
            assert(is_unsafe_char(c));
            proof {
                reveal_strlit("_");
            }
            out.append("_");
            assert(out@ =~= before.push(safe_char(c)));
        } else {
            assert(!is_unsafe_char(c));
            let one = s.substring_char(i, i + 1);
            assert(one@ =~= seq![c]);
            out.append(one);
            assert(out@ =~= before.push(safe_char(c)));
        }
        assert(s@.subrange(0, i + 1) =~= s@.subrange(0, i as int).push(c));
        assert(out@ =~= old(out)@ + sanitized(s@.subrange(0, i as int)).push(safe_char(c)));
        assert(sanitized(s@.subrange(0, i + 1)) =~= sanitized(s@.subrange(0, i as int)).push(
            safe_char(c),
        ));
        i = i + 1;
    }
    assert(s@.subrange(0, n as int) =~= s@);
}

/// The mode label of a match: the team size on both sides of a `v`.
pub fn mode_name(p: &Properties) -> (r: String)
    ensures
        r@ == mode_text(p.team_size as nat),
{
    let mut out = String::new();
    push_decimal(&mut out, p.team_size as u64);
    out.append("v");
    push_decimal(&mut out, p.team_size as u64);
    proof {
        reveal_strlit("v");
        assert(out@ =~= mode_text(p.team_size as nat));
    }
    out
}

/// The length of a match in compact text, or `None` where the frame rate is
/// not positive.
pub fn game_length(p: &Properties) -> (r: Option<String>)
    ensures
        r is Some <==> p.has_length(),
        r matches Some(t) ==> t@ == duration_text(
            length_secs(p.num_frames as nat, p.record_fps.bits),
            0,
        ),
{
    match p.record_fps.game_length_secs(p.num_frames) {
        Some(secs) => Some(format_duration(secs, 0)),
        None => None,
    }
}

} // verus!
