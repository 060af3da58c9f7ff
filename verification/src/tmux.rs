//! The multiplexer adapter's parsing side.  Running the multiplexer is I/O
//! and lives outside the engine; what it prints is parsed and organized
//! here: the session listing into raw session records, and the raw records
//! into the per-round context buckets.
use vstd::prelude::*;

use crate::session::{TmuxSession, TmuxSessionV, sessions_view};
use crate::{ErrV, SessionError};
use crate::strutil::{
    all_digits, contains_substr, dec_value, has_substr, int_value, is_int_numeral, lines_v,
    opt_str_view, parse_i64, parse_u32, split_lines, split_on_char, split_seq, str_eq, strs_view,
    trim_v, trim_ws,
};

verus! {

/// Handle for the multiplexer adapter; the optional socket path is passed
/// through to every invocation by the caller that performs the I/O.
#[derive(Debug, Clone)]
pub struct TmuxClient {
    pub socket_path: Option<String>,
}

/// A line's decimal digits denote a value that fits in `u32`.
pub open spec fn valid_u32(s: Seq<char>) -> bool {
    s.len() > 0 && all_digits(s) && dec_value(s) <= u32::MAX as int
}

/// What one line of the session listing denotes: fewer than four
/// colon-separated fields is not a session line; a malformed window count
/// is an error; an unparsable timestamp falls back to the observation time.
pub open spec fn parse_session_line_v(line: Seq<char>, now: i64) -> Result<
    Option<TmuxSessionV>,
    ErrV,
> {
    let parts = split_seq(line, ':');
    if parts.len() < 4 {
        Ok(None)
    } else if !valid_u32(parts[2]) {
        Err(ErrV::MalformedExternalOutput("Invalid window count: "@ + parts[2]))
    } else {
        Ok(
            Some(
                TmuxSessionV {
                    name: parts[1],
                    last_attached: if is_int_numeral(parts[0]) && int_value(parts[0]) <= i64::MAX
                        as int && int_value(parts[0]) >= i64::MIN as int {
                        int_value(parts[0]) as i64
                    } else {
                        now
                    },
                    windows: dec_value(parts[2]) as u32,
                    attached: parts[3] == "1"@,
                    current_path: None,
                },
            ),
        )
    }
}

/// The raw sessions denoted by the listing's lines, in listing order; the
/// first malformed line is the round's error.
pub open spec fn sessions_of_lines(lines: Seq<Seq<char>>, now: i64) -> Result<
    Seq<TmuxSessionV>,
    ErrV,
>
    decreases lines.len(),
{
    if lines.len() == 0 {
        Ok(Seq::empty())
    } else {
        match parse_session_line_v(lines[0], now) {
            Err(e) => Err(e),
            Ok(None) => sessions_of_lines(lines.drop_first(), now),
            Ok(Some(t)) => match sessions_of_lines(lines.drop_first(), now) {
                Err(e) => Err(e),
                Ok(rest) => Ok(seq![t] + rest),
            },
        }
    }
}

/// Most recently used first.
pub open spec fn sorted_recent_first(s: Seq<TmuxSessionV>) -> bool {
    forall|i: int| 0 <= i && i + 1 < s.len() ==> (#[trigger] s[i]).last_attached >= s[i
        + 1].last_attached
}

/// Names with their last-used times, most recently used first.
pub open spec fn pairs_sorted_recent_first(s: Seq<(Seq<char>, i64)>) -> bool {
    forall|i: int| 0 <= i && i + 1 < s.len() ==> (#[trigger] s[i]).1 >= s[i + 1].1
}

/// The non-current sessions whose names do not follow the scratch
/// convention, with their last-used times, in listing order.
pub open spec fn active_pairs(all: Seq<TmuxSessionV>, current: Option<Seq<char>>) -> Seq<
    (Seq<char>, i64),
>
    decreases all.len(),
{
    if all.len() == 0 {
        Seq::empty()
    } else {
        let rest = active_pairs(all.drop_last(), current);
        let t = all.last();
        if Some(t.name) == current || has_substr(t.name, "scratch"@) {
            rest
        } else {
            rest.push((t.name, t.last_attached))
        }
    }
}

/// The non-current sessions whose names follow the scratch convention,
/// with their last-used times, in listing order.
pub open spec fn scratch_pairs(all: Seq<TmuxSessionV>, current: Option<Seq<char>>) -> Seq<
    (Seq<char>, i64),
>
    decreases all.len(),
{
    if all.len() == 0 {
        Seq::empty()
    } else {
        let rest = scratch_pairs(all.drop_last(), current);
        let t = all.last();
        if Some(t.name) == current || !has_substr(t.name, "scratch"@) {
            rest
        } else {
            rest.push((t.name, t.last_attached))
        }
    }
}

/// Views of (name, time) pairs.
pub open spec fn nt_view(v: Seq<(String, i64)>) -> Seq<(Seq<char>, i64)> {
    v.map_values(|p: (String, i64)| (p.0@, p.1))
}

impl TmuxClient {
    /// A handle on the default multiplexer socket.
    pub fn new() -> (r: TmuxClient)
        ensures
            r.socket_path is None,
    {
        TmuxClient { socket_path: None }
    }

    /// Parse one line of the session listing
    /// (`last-attached:name:windows:attached`).
    pub fn parse_session_line(&self, line: &str, now: i64) -> (r: Result<
        Option<TmuxSession>,
        SessionError,
    >)
        ensures
            match r {
                Ok(Some(t)) => parse_session_line_v(line@, now) == Ok::<
                    Option<TmuxSessionV>,
                    ErrV,
                >(Some(t@)),
                Ok(None) => parse_session_line_v(line@, now) == Ok::<
                    Option<TmuxSessionV>,
                    ErrV,
                >(None),
                Err(e) => parse_session_line_v(line@, now) == Err::<Option<TmuxSessionV>, ErrV>(
                    e@,
                ),
            },
    {
        let parts = split_on_char(line, ':');
        if parts.len() < 4 {
            return Ok(None);
        }
        let windows = match parse_u32(parts[2].as_str()) {
            Some(w) => w,
            None => {
                return Err(
                    SessionError::malformed("Invalid window count: ", parts[2].as_str()),
                );
            },
        };
        let last_attached = match parse_i64(parts[0].as_str()) {
            Some(ts) => ts,
            None => now,
        };
        let attached = str_eq(parts[3].as_str(), "1");
        proof {
            reveal_strlit("1");
        }
        Ok(
            Some(
                TmuxSession {
                    name: parts[1].clone(),
                    last_attached,
                    windows,
                    attached,
                    current_path: None,
                },
            ),
        )
    }

    /// Parse the whole session listing and order it most recently used
    /// first.  The first malformed line fails the round.
    #[verifier::loop_isolation(false)]
    pub fn parse_session_list(&self, output: &str, now: i64) -> (r: Result<
        Vec<TmuxSession>,
        SessionError,
    >)
        ensures
            match r {
                Ok(v) => ({
                    match sessions_of_lines(lines_v(output@), now) {
                        Ok(s) => {
                            let rv = sessions_view(v@);
                            &&& rv.len() == s.len()
                            &&& sorted_recent_first(rv)
                            &&& forall|k: int| 0 <= k < rv.len() ==> s.contains(#[trigger] rv[k])
                            &&& forall|k: int| 0 <= k < s.len() ==> rv.contains(#[trigger] s[k])
                        },
                        Err(_) => false,
                    }
                }),
                Err(e) => sessions_of_lines(lines_v(output@), now) == Err::<
                    Seq<TmuxSessionV>,
                    ErrV,
                >(e@),
            },
    {
        let lines = split_lines(output);
        let ghost l = lines_v(output@);
        let mut sessions: Vec<TmuxSession> = Vec::new();
        let mut i: usize = 0;
        proof {
            assert(l.skip(0) =~= l);
            assert(sessions_view(sessions@) =~= Seq::<TmuxSessionV>::empty());
        }
        while i < lines.len()
            invariant
                i <= lines@.len(),
                strs_view(lines@) == l,
                match sessions_of_lines(l.skip(i as int), now) {
                    Ok(rest) => sessions_of_lines(l, now) == Ok::<Seq<TmuxSessionV>, ErrV>(
                        sessions_view(sessions@) + rest,
                    ),
                    Err(e) => sessions_of_lines(l, now) == Err::<Seq<TmuxSessionV>, ErrV>(e),
                },
            decreases lines@.len() - i,
        {
            proof {
                assert(l.skip(i as int)[0] == l[i as int]);
                assert(l.skip(i as int).drop_first() =~= l.skip(i as int + 1));
            }
            match self.parse_session_line(lines[i].as_str(), now) {
                Ok(Some(t)) => {
                    proof {
                        assert(sessions_view(sessions@.push(t)) =~= sessions_view(sessions@).push(
                            t@,
                        ));
                        match sessions_of_lines(l.skip(i as int + 1), now) {
                            Ok(rest) => {
                                assert(sessions_view(sessions@).push(t@) + rest =~= sessions_view(
                                    sessions@,
                                ) + (seq![t@] + rest));
                            },
                            Err(_) => {},
                        }
                    }
                    sessions.push(t);
                },
                Ok(None) => {},
                Err(e) => {
                    return Err(e);
                },
            }
            i += 1;
        }
        proof {
            assert(l.skip(l.len() as int) =~= Seq::<Seq<char>>::empty());
            assert(sessions_view(sessions@) + Seq::<TmuxSessionV>::empty() =~= sessions_view(
                sessions@,
            ));
        }
        Ok(sort_sessions(sessions))
    }

    /// Partition the raw sessions into the active and scratch buckets,
    /// excluding the current session, each bucket ordered most recently
    /// used first.
    pub fn categorize_sessions(&self, sessions: &Vec<TmuxSession>, current_session: &Option<
        String,
    >) -> (r: (Vec<String>, Vec<String>))
        ensures
            ({
                let ap = active_pairs(sessions_view(sessions@), opt_str_view(*current_session));
                let sp = scratch_pairs(sessions_view(sessions@), opt_str_view(*current_session));
                &&& names_of_sorted(strs_view(r.0@), ap)
                &&& names_of_sorted(strs_view(r.1@), sp)
            }),
    {
        let ghost all = sessions_view(sessions@);
        let ghost cur = opt_str_view(*current_session);
        let mut act: Vec<(String, i64)> = Vec::new();
        let mut scr: Vec<(String, i64)> = Vec::new();
        let mut i: usize = 0;
        proof {
            assert(nt_view(act@) =~= active_pairs(all.take(0), cur));
            assert(nt_view(scr@) =~= scratch_pairs(all.take(0), cur));
        }
        while i < sessions.len()
            invariant
                i <= sessions@.len(),
                all == sessions_view(sessions@),
                cur == opt_str_view(*current_session),
                all.len() == sessions@.len(),
                nt_view(act@) == active_pairs(all.take(i as int), cur),
                nt_view(scr@) == scratch_pairs(all.take(i as int), cur),
            decreases sessions@.len() - i,
        {
            let t = &sessions[i];
            proof {
                assert(all.take(i as int + 1).drop_last() =~= all.take(i as int));
                assert(all.take(i as int + 1).last() == t@);
            }
            let is_current = match current_session {
                Some(current) => str_eq(t.name.as_str(), current.as_str()),
                None => false,
            };
            if !is_current {
                let entry = (t.name.clone(), t.last_attached);
                let ghost ev = (t@.name, t@.last_attached);
                if contains_substr(t.name.as_str(), "scratch") {
                    proof {
                        assert(nt_view(scr@.push(entry)) =~= nt_view(scr@).push(ev));
                    }
                    scr.push(entry);
                } else {
                    proof {
                        assert(nt_view(act@.push(entry)) =~= nt_view(act@).push(ev));
                    }
                    act.push(entry);
                }
            }
            i += 1;
        }
        proof {
            assert(all.take(all.len() as int) =~= all);
        }
        let act_sorted = sort_pairs(act);
        let scr_sorted = sort_pairs(scr);
        let ghost aps = nt_view(act_sorted@);
        let ghost sps = nt_view(scr_sorted@);
        let active_names = project_names(act_sorted);
        let scratch_names = project_names(scr_sorted);
        proof {
            assert(names_of_sorted(strs_view(active_names@), active_pairs(all, cur))) by {
                assert(strs_view(active_names@) == pair_names(aps));
            }
            assert(names_of_sorted(strs_view(scratch_names@), scratch_pairs(all, cur))) by {
                assert(strs_view(scratch_names@) == pair_names(sps));
            }
        }
        (active_names, scratch_names)
    }

    /// Parse the `windows:attached` summary printed for one session.
    pub fn parse_session_info(&self, output: &str) -> (r: Result<(u32, bool), SessionError>)
        ensures
            ({
                let line = trim_v(output@);
                let parts = split_seq(line, ':');
                match r {
                    Ok((w, a)) => parts.len() == 2 && valid_u32(parts[0]) && w as int == dec_value(
                        parts[0],
                    ) && a == (parts[1] == "1"@),
                    Err(e) => (parts.len() != 2 && e@ == ErrV::MalformedExternalOutput(
                        "Invalid session info format: "@ + line,
                    )) || (parts.len() == 2 && !valid_u32(parts[0])
                        && e@ == ErrV::MalformedExternalOutput("Invalid window count: "@ + parts[0])),
                }
            }),
    {
        let line = trim_ws(output);
        let parts = split_on_char(line, ':');
        if parts.len() != 2 {
            return Err(SessionError::malformed("Invalid session info format: ", line));
        }
        let windows = match parse_u32(parts[0].as_str()) {
            Some(w) => w,
            None => {
                return Err(
                    SessionError::malformed("Invalid window count: ", parts[0].as_str()),
                );
            },
        };
        let attached = str_eq(parts[1].as_str(), "1");
        proof {
            reveal_strlit("1");
        }
        Ok((windows, attached))
    }
}

/// The names of (name, time) pairs, in order.
pub open spec fn pair_names(ps: Seq<(Seq<char>, i64)>) -> Seq<Seq<char>> {
    ps.map_values(|p: (Seq<char>, i64)| p.0)
}

/// `names` lists exactly the names of some most-recent-first arrangement of
/// the given (name, time) pairs.
pub open spec fn names_of_sorted(names: Seq<Seq<char>>, pairs: Seq<(Seq<char>, i64)>) -> bool {
    exists|ps: Seq<(Seq<char>, i64)>|
        {
            &&& ps.len() == pairs.len()
            &&& pairs_sorted_recent_first(ps)
            &&& (forall|k: int| 0 <= k < ps.len() ==> pairs.contains(#[trigger] ps[k]))
            &&& (forall|k: int| 0 <= k < pairs.len() ==> ps.contains(#[trigger] pairs[k]))
            &&& names == #[trigger] pair_names(ps)
        }
}

/// Order raw sessions most recently used first, keeping exactly the input
/// records.
#[verifier::loop_isolation(false)]
fn sort_sessions(input: Vec<TmuxSession>) -> (r: Vec<TmuxSession>)
    ensures
        ({
            let iv = sessions_view(input@);
            let rv = sessions_view(r@);
            &&& rv.len() == iv.len()
            &&& sorted_recent_first(rv)
            &&& forall|k: int| 0 <= k < rv.len() ==> iv.contains(#[trigger] rv[k])
            &&& forall|k: int| 0 <= k < iv.len() ==> rv.contains(#[trigger] iv[k])
        }),
{
    let ghost orig = sessions_view(input@);
    let mut v = input;
    let mut out: Vec<TmuxSession> = Vec::new();
    while v.len() > 0
        invariant
            out@.len() + v@.len() == orig.len(),
            sorted_recent_first(sessions_view(out@)),
            forall|x: int, y: int|
                0 <= x < out@.len() && 0 <= y < v@.len() ==> (#[trigger] sessions_view(out@)[
                x]).last_attached >= (#[trigger] sessions_view(v@)[y]).last_attached,
            forall|k: int|
                0 <= k < out@.len() ==> orig.contains(#[trigger] sessions_view(out@)[k]),
            forall|k: int| 0 <= k < v@.len() ==> orig.contains(#[trigger] sessions_view(v@)[k]),
            forall|l: int|
                0 <= l < orig.len() ==> sessions_view(out@).contains(#[trigger] orig[l])
                    || sessions_view(v@).contains(orig[l]),
        decreases v@.len(),
    {
        let ghost vv = sessions_view(v@);
        let mut min: usize = 0;
        let mut k: usize = 1;
        while k < v.len()
            invariant
                min < k <= v@.len(),
                v@.len() > 0,
                vv == sessions_view(v@),
                forall|t: int|
                    0 <= t < k ==> vv[min as int].last_attached >= (#[trigger] vv[t]).last_attached,
            decreases v@.len() - k,
        {
            if v[k].last_attached > v[min].last_attached {
                min = k;
            }
            k += 1;
        }
        let x = v.remove(min);
        proof {
            assert(x@ == vv[min as int]);
            assert(sessions_view(v@) =~= vv.remove(min as int));
            vv.remove_ensures(min as int);
        }
        let ghost ov = sessions_view(out@);
        let ghost vv2 = sessions_view(v@);
        proof {
            assert forall|y: int|
                0 <= y < vv2.len() implies x@.last_attached >= (#[trigger] vv2[y]).last_attached by {
                let oy = if y < min {
                    y
                } else {
                    y + 1
                };
                assert(vv2[y] == vv[oy]);
            }
            assert forall|l: int|
                0 <= l < orig.len() implies sessions_view(out@).push(x@).contains(
                #[trigger] orig[l],
            ) || vv2.contains(orig[l]) by {
                if ov.contains(orig[l]) {
                    let m = choose|m: int| 0 <= m < ov.len() && ov[m] == orig[l];
                    assert(ov.push(x@)[m] == orig[l]);
                } else if vv.contains(orig[l]) {
                    let m = choose|m: int| 0 <= m < vv.len() && vv[m] == orig[l];
                    if m == min {
                        assert(ov.push(x@)[ov.len() as int] == x@);
                    } else {
                        let nm = if m < min {
                            m
                        } else {
                            m - 1
                        };
                        assert(vv2[nm] == vv[m]);
                    }
                }
            }
            assert forall|k2: int| 0 <= k2 < vv2.len() implies orig.contains(#[trigger] vv2[k2]) by {
                let ok = if k2 < min {
                    k2
                } else {
                    k2 + 1
                };
                assert(vv2[k2] == vv[ok]);
            }
            assert(orig.contains(vv[min as int]));
            assert(sessions_view(out@.push(x)) =~= ov.push(x@));
        }
        out.push(x);
    }
    out
}

/// Order (name, time) pairs most recently used first, keeping exactly the
/// input pairs.
#[verifier::loop_isolation(false)]
fn sort_pairs(input: Vec<(String, i64)>) -> (r: Vec<(String, i64)>)
    ensures
        ({
            let iv = nt_view(input@);
            let rv = nt_view(r@);
            &&& rv.len() == iv.len()
            &&& pairs_sorted_recent_first(rv)
            &&& forall|k: int| 0 <= k < rv.len() ==> iv.contains(#[trigger] rv[k])
            &&& forall|k: int| 0 <= k < iv.len() ==> rv.contains(#[trigger] iv[k])
        }),
{
    let ghost orig = nt_view(input@);
    let mut v = input;
    let mut out: Vec<(String, i64)> = Vec::new();
    while v.len() > 0
        invariant
            out@.len() + v@.len() == orig.len(),
            pairs_sorted_recent_first(nt_view(out@)),
            forall|x: int, y: int|
                0 <= x < out@.len() && 0 <= y < v@.len() ==> (#[trigger] nt_view(out@)[x]).1 >= (
                #[trigger] nt_view(v@)[y]).1,
            forall|k: int| 0 <= k < out@.len() ==> orig.contains(#[trigger] nt_view(out@)[k]),
            forall|k: int| 0 <= k < v@.len() ==> orig.contains(#[trigger] nt_view(v@)[k]),
            forall|l: int|
                0 <= l < orig.len() ==> nt_view(out@).contains(#[trigger] orig[l]) || nt_view(
                    v@,
                ).contains(orig[l]),
        decreases v@.len(),
    {
        let ghost vv = nt_view(v@);
        let mut min: usize = 0;
        let mut k: usize = 1;
        while k < v.len()
            invariant
                min < k <= v@.len(),
                v@.len() > 0,
                vv == nt_view(v@),
                forall|t: int| 0 <= t < k ==> vv[min as int].1 >= (#[trigger] vv[t]).1,
            decreases v@.len() - k,
        {
            if v[k].1 > v[min].1 {
                min = k;
            }
            k += 1;
        }
        let x = v.remove(min);
        proof {
            assert((x.0@, x.1) == vv[min as int]);
            assert(nt_view(v@) =~= vv.remove(min as int));
            vv.remove_ensures(min as int);
        }
        let ghost ov = nt_view(out@);
        let ghost vv2 = nt_view(v@);
        let ghost xv = (x.0@, x.1);
        proof {
            assert forall|y: int| 0 <= y < vv2.len() implies xv.1 >= (#[trigger] vv2[y]).1 by {
                let oy = if y < min {
                    y
                } else {
                    y + 1
                };
                assert(vv2[y] == vv[oy]);
            }
            assert forall|l: int|
                0 <= l < orig.len() implies ov.push(xv).contains(#[trigger] orig[l])
                    || vv2.contains(orig[l]) by {
                if ov.contains(orig[l]) {
                    let m = choose|m: int| 0 <= m < ov.len() && ov[m] == orig[l];
                    assert(ov.push(xv)[m] == orig[l]);
                } else if vv.contains(orig[l]) {
                    let m = choose|m: int| 0 <= m < vv.len() && vv[m] == orig[l];
                    if m == min {
                        assert(ov.push(xv)[ov.len() as int] == xv);
                    } else {
                        let nm = if m < min {
                            m
                        } else {
                            m - 1
                        };
                        assert(vv2[nm] == vv[m]);
                    }
                }
            }
            assert forall|k2: int| 0 <= k2 < vv2.len() implies orig.contains(#[trigger] vv2[k2]) by {
                let ok = if k2 < min {
                    k2
                } else {
                    k2 + 1
                };
                assert(vv2[k2] == vv[ok]);
            }
            assert(orig.contains(vv[min as int]));
            assert(nt_view(out@.push(x)) =~= ov.push(xv));
        }
        out.push(x);
    }
    out
}

/// The names of a pair list, in order.
fn project_names(pairs: Vec<(String, i64)>) -> (r: Vec<String>)
    ensures
        strs_view(r@) == pair_names(nt_view(pairs@)),
{
    let mut names: Vec<String> = Vec::new();
    let mut i: usize = 0;
    proof {
        assert(strs_view(names@) =~= pair_names(nt_view(pairs@)).take(0));
    }
    while i < pairs.len()
        invariant
            i <= pairs@.len(),
            nt_view(pairs@).len() == pairs@.len(),
            strs_view(names@) == pair_names(nt_view(pairs@)).take(i as int),
        decreases pairs@.len() - i,
    {
        let n = pairs[i].0.clone();
        proof {
            assert(strs_view(names@.push(n)) =~= strs_view(names@).push(n@));
            assert(strs_view(names@).push(n@) =~= pair_names(nt_view(pairs@)).take(i as int + 1));
        }
        names.push(n);
        i += 1;
    }
    proof {
        assert(pair_names(nt_view(pairs@)).take(pairs@.len() as int) =~= pair_names(
            nt_view(pairs@),
        ));
    }
    names
}

} // verus!
