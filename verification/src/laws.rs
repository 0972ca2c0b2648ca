//! Properties of the session store and of session file names that hold
//! across operations.
use vstd::prelude::*;
use crate::data::{
    apply_session, apply_status, bounded_push, by_model, created_by_status, ids_unique, index_of,
    inserted_session, is_fresh, keep_fresh, lemma_index_of, lemma_unique_push, lemma_unique_remove,
    lemma_unique_update, lookup, of_rank, refreshed_by_session, refreshed_by_status,
    reported_usage, without_session, FileStatus, SessionView, StatusLineData, MAX_HISTORY_SAMPLES,
};
use crate::files::{file_name_of, session_id_of};
use crate::model::model_rank;
use crate::chart::{
    contains_text, area_fill, background_color, fill_color, frame_color, line_color, background_rect, frame_stroke, line_stroke, line_svg, points, svg_polygon,
    svg_polyline, svg_prefix, svg_suffix, x_coord,
};
use crate::text::decimal;
use crate::display::headline_text;

verus! {

/// Where a session with id `id` sits, it is the one that `lookup` finds.
proof fn lemma_lookup_at(s: Seq<SessionView>, id: Seq<char>, k: int)
    requires
        ids_unique(s),
        0 <= k < s.len(),
        s[k].session_id == id,
    ensures
        lookup(s, id) == Some(s[k]),
{
    lemma_index_of(s, id, k);
}

/// Replacing the session of `id` by one with the same id changes what
/// `lookup` finds for `id` only.
proof fn lemma_lookup_after_update(s: Seq<SessionView>, k: int, v: SessionView, other: Seq<char>)
    requires
        ids_unique(s),
        0 <= k < s.len(),
        v.session_id == s[k].session_id,
    ensures
        ids_unique(s.update(k, v)),
        lookup(s.update(k, v), v.session_id) == Some(v),
        other != v.session_id ==> lookup(s.update(k, v), other) == lookup(s, other),
{
    let t = s.update(k, v);
    lemma_unique_update(s, k, v);
    lemma_lookup_at(t, v.session_id, k);
    if other != v.session_id {
        match index_of(s, other) {
            Some(j) => {
                assert(s[j].session_id == other);
                assert(t[j] == s[j]);
                lemma_lookup_at(t, other, j);
            },
            None => {
                assert forall|i: int| 0 <= i < t.len() implies #[trigger] t[i].session_id != other by {
                    if i != k {
                        assert(t[i] == s[i]);
                        if s[i].session_id == other {
                            assert(exists|i: int| 0 <= i < s.len() && #[trigger] s[i].session_id == other);
                        }
                    }
                }
            },
        }
    }
}

/// Appending a session with a new id changes what `lookup` finds for that
/// id only.
proof fn lemma_lookup_after_push(s: Seq<SessionView>, v: SessionView, other: Seq<char>)
    requires
        ids_unique(s),
        index_of(s, v.session_id) is None,
    ensures
        ids_unique(s.push(v)),
        lookup(s.push(v), v.session_id) == Some(v),
        other != v.session_id ==> lookup(s.push(v), other) == lookup(s, other),
{
    let t = s.push(v);
    lemma_unique_push(s, v);
    lemma_lookup_at(t, v.session_id, s.len() as int);
    if other != v.session_id {
        match index_of(s, other) {
            Some(j) => {
                assert(s[j].session_id == other);
                assert(t[j] == s[j]);
                lemma_lookup_at(t, other, j);
            },
            None => {
                assert forall|i: int| 0 <= i < t.len() implies #[trigger] t[i].session_id != other by {
                    if i < s.len() {
                        assert(t[i] == s[i]);
                        if s[i].session_id == other {
                            assert(exists|i: int| 0 <= i < s.len() && #[trigger] s[i].session_id == other);
                        }
                    }
                }
            },
        }
    }
}

/// Read after write: once a status-line record for a session has been
/// recorded, the store holds exactly one session under its id, refreshed
/// from the record if it was known and created from it otherwise; every
/// other session is untouched, the ids stay distinct, and the store grows by
/// one exactly when the id was new.
pub proof fn law_status_update(
    s: Seq<SessionView>,
    status: StatusLineData,
    project_dir: Seq<char>,
    now: u64,
    other: Seq<char>,
)
    requires
        ids_unique(s),
    ensures
        ids_unique(apply_status(s, status, project_dir, now)),
        lookup(apply_status(s, status, project_dir, now), status.session_id@) == Some(
            match lookup(s, status.session_id@) {
                Some(old) => refreshed_by_status(old, status, now),
                None => created_by_status(status, project_dir, now),
            },
        ),
        other != status.session_id@ ==> lookup(apply_status(s, status, project_dir, now), other)
            == lookup(s, other),
        apply_status(s, status, project_dir, now).len() == s.len() + (if lookup(
            s,
            status.session_id@,
        ) is None {
            1int
        } else {
            0int
        }),
{
    match index_of(s, status.session_id@) {
        Some(k) => {
            lemma_lookup_after_update(s, k, refreshed_by_status(s[k], status, now), other);
        },
        None => {
            lemma_lookup_after_push(s, created_by_status(status, project_dir, now), other);
        },
    }
}

/// The same for a directly supplied session record.
pub proof fn law_session_update(s: Seq<SessionView>, new: SessionView, now: u64, other: Seq<char>)
    requires
        ids_unique(s),
    ensures
        ids_unique(apply_session(s, new, now)),
        lookup(apply_session(s, new, now), new.session_id) == Some(
            match lookup(s, new.session_id) {
                Some(old) => refreshed_by_session(old, new, now),
                None => inserted_session(new, now),
            },
        ),
        other != new.session_id ==> lookup(apply_session(s, new, now), other) == lookup(s, other),
        apply_session(s, new, now).len() == s.len() + (if lookup(s, new.session_id) is None {
            1int
        } else {
            0int
        }),
{
    match index_of(s, new.session_id) {
        Some(k) => {
            lemma_lookup_after_update(s, k, refreshed_by_session(s[k], new, now), other);
        },
        None => {
            lemma_lookup_after_push(s, inserted_session(new, now), other);
        },
    }
}

/// After a status-line record, the session's peak usage is at least its
/// current usage and at least its peak before; its history ends with the
/// reported usage and stays within [`MAX_HISTORY_SAMPLES`] if it was.
pub proof fn law_status_peak_and_history(s: Seq<SessionView>, status: StatusLineData, project_dir: Seq<char>, now: u64)
    requires
        ids_unique(s),
    ensures
        ({
            let after = lookup(apply_status(s, status, project_dir, now), status.session_id@).unwrap();
            &&& after.peak_usage_percent >= after.context_used_percent
            &&& after.context_used_percent == reported_usage(status)
            &&& after.usage_history.len() > 0
            &&& after.usage_history.last() == reported_usage(status)
            &&& (lookup(s, status.session_id@) matches Some(old) ==> {
                &&& after.peak_usage_percent >= old.peak_usage_percent
                &&& (old.usage_history.len() <= MAX_HISTORY_SAMPLES ==> after.usage_history.len()
                    <= MAX_HISTORY_SAMPLES)
            })
            &&& (lookup(s, status.session_id@) is None ==> after.usage_history.len() == 1)
        }),
{
    law_status_update(s, status, project_dir, now, status.session_id@);
}

/// A bounded history ends with the new sample, keeps every earlier sample
/// but possibly the oldest, and never outgrows [`MAX_HISTORY_SAMPLES`] once
/// within it.
pub proof fn law_bounded_push(history: Seq<u32>, sample: u32)
    ensures
        bounded_push(history, sample).len() > 0,
        bounded_push(history, sample).last() == sample,
        history.len() <= MAX_HISTORY_SAMPLES ==> bounded_push(history, sample).len()
            <= MAX_HISTORY_SAMPLES,
        history.len() < MAX_HISTORY_SAMPLES ==> bounded_push(history, sample) == history.push(
            sample,
        ),
        history.len() >= MAX_HISTORY_SAMPLES ==> bounded_push(history, sample) == history.push(
            sample,
        ).subrange(1, history.len() as int + 1),
{
}

/// After removing a session, no session carries its id; every other
/// session is untouched and the ids stay distinct.
pub proof fn law_remove(s: Seq<SessionView>, id: Seq<char>, other: Seq<char>)
    requires
        ids_unique(s),
    ensures
        ids_unique(without_session(s, id)),
        lookup(without_session(s, id), id) is None,
        other != id ==> lookup(without_session(s, id), other) == lookup(s, other),
        without_session(s, id).len() == s.len() - (if lookup(s, id) is None {
            0int
        } else {
            1int
        }),
{
    match index_of(s, id) {
        Some(k) => {
            let t = s.remove(k);
            lemma_unique_remove(s, k);
            assert forall|i: int| 0 <= i < t.len() implies #[trigger] t[i].session_id != id by {
                let si = if i < k {
                    i
                } else {
                    i + 1
                };
                assert(t[i] == s[si]);
            }
            if other != id {
                match index_of(s, other) {
                    Some(j) => {
                        assert(j != k);
                        let tj = if j < k {
                            j
                        } else {
                            j - 1
                        };
                        assert(t[tj] == s[j]);
                        lemma_lookup_at(t, other, tj);
                    },
                    None => {
                        assert forall|i: int| 0 <= i < t.len() implies #[trigger] t[i].session_id
                            != other by {
                            let si = if i < k {
                                i
                            } else {
                                i + 1
                            };
                            assert(t[i] == s[si]);
                            if s[si].session_id == other {
                                assert(exists|i: int| 0 <= i < s.len() && #[trigger] s[i].session_id == other);
                            }
                        }
                    },
                }
            }
        },
        None => {
        },
    }
}

/// Every session of `of_rank(s, r)` has a model of rank `r`.
proof fn lemma_of_rank_ranks(s: Seq<SessionView>, r: nat)
    ensures
        forall|i: int|
            0 <= i < of_rank(s, r).len() ==> model_rank(#[trigger] of_rank(s, r)[i].model_name) == r,
    decreases s.len(),
{
    if s.len() > 0 {
        let p = s.drop_last();
        lemma_of_rank_ranks(p, r);
        let rest = of_rank(p, r);
        let out = of_rank(s, r);
        assert forall|i: int| 0 <= i < out.len() implies model_rank(#[trigger] out[i].model_name)
            == r by {
            if i < rest.len() {
                assert(out[i] == rest[i]);
            } else {
                assert(out[i] == s.last());
            }
        }
    }
}

/// The sessions of the four ranks together are the sessions of the store.
proof fn lemma_of_rank_multiset(s: Seq<SessionView>)
    ensures
        of_rank(s, 0).to_multiset().add(of_rank(s, 1).to_multiset()).add(
            of_rank(s, 2).to_multiset(),
        ).add(of_rank(s, 3).to_multiset()) == s.to_multiset(),
    decreases s.len(),
{
    broadcast use vstd::seq_lib::group_to_multiset_ensures, vstd::multiset::group_multiset_properties;

    if s.len() == 0 {
        assert(s.to_multiset() =~= vstd::multiset::Multiset::empty());
        assert(of_rank(s, 0).to_multiset() =~= vstd::multiset::Multiset::empty());
        assert(of_rank(s, 1).to_multiset() =~= vstd::multiset::Multiset::empty());
        assert(of_rank(s, 2).to_multiset() =~= vstd::multiset::Multiset::empty());
        assert(of_rank(s, 3).to_multiset() =~= vstd::multiset::Multiset::empty());
    } else {
        let p = s.drop_last();
        let x = s.last();
        lemma_of_rank_multiset(p);
        assert(s =~= p.push(x));
        let r = model_rank(x.model_name);
        let m0 = of_rank(p, 0).to_multiset();
        let m1 = of_rank(p, 1).to_multiset();
        let m2 = of_rank(p, 2).to_multiset();
        let m3 = of_rank(p, 3).to_multiset();
        if r == 0 {
            assert(of_rank(s, 0).to_multiset() == m0.insert(x));
        } else if r == 1 {
            assert(of_rank(s, 1).to_multiset() == m1.insert(x));
        } else if r == 2 {
            assert(of_rank(s, 2).to_multiset() == m2.insert(x));
        } else {
            assert(of_rank(s, 3).to_multiset() == m3.insert(x));
        }
        assert(of_rank(s, 0).to_multiset().add(of_rank(s, 1).to_multiset()).add(
            of_rank(s, 2).to_multiset(),
        ).add(of_rank(s, 3).to_multiset()) =~= m0.add(m1).add(m2).add(m3).insert(x));
    }
}

/// Listing the sessions by model orders them Opus, Sonnet, Haiku, other,
/// and lists every session exactly once.
pub proof fn law_by_model(s: Seq<SessionView>)
    ensures
        forall|i: int, j: int|
            0 <= i < j < by_model(s).len() ==> model_rank(#[trigger] by_model(s)[i].model_name)
                <= model_rank(#[trigger] by_model(s)[j].model_name),
        by_model(s).to_multiset() == s.to_multiset(),
        by_model(s).len() == s.len(),
{
    broadcast use vstd::seq_lib::group_to_multiset_ensures;

    let a = of_rank(s, 0);
    let b = of_rank(s, 1);
    let c = of_rank(s, 2);
    let d = of_rank(s, 3);
    let out = by_model(s);
    lemma_of_rank_ranks(s, 0);
    lemma_of_rank_ranks(s, 1);
    lemma_of_rank_ranks(s, 2);
    lemma_of_rank_ranks(s, 3);
    assert forall|i: int| 0 <= i < out.len() implies model_rank(#[trigger] out[i].model_name) == (
    if i < a.len() {
        0int
    } else if i < a.len() + b.len() {
        1int
    } else if i < a.len() + b.len() + c.len() {
        2int
    } else {
        3int
    }) by {
        if i < a.len() {
            assert(out[i] == a[i]);
        } else if i < a.len() + b.len() {
            assert(out[i] == b[i - a.len()]);
        } else if i < a.len() + b.len() + c.len() {
            assert(out[i] == c[i - a.len() - b.len()]);
        } else {
            assert(out[i] == d[i - a.len() - b.len() - c.len()]);
        }
    }
    lemma_of_rank_multiset(s);
    vstd::seq_lib::lemma_multiset_commutative(a, b);
    vstd::seq_lib::lemma_multiset_commutative(a + b, c);
    vstd::seq_lib::lemma_multiset_commutative(a + b + c, d);
    assert(out.to_multiset().len() == s.to_multiset().len());
}

/// `x` is a session of `s` whose file status is fresh.
pub open spec fn fresh_member(
    s: Seq<SessionView>,
    statuses: Seq<FileStatus>,
    threshold_secs: u64,
    x: SessionView,
) -> bool {
    exists|i: int| 0 <= i < s.len() && #[trigger] s[i] == x && is_fresh(statuses[i], threshold_secs)
}

/// Stale-session removal keeps exactly the sessions whose file is fresh,
/// in their order: each kept session is a session of the store with a
/// fresh file, and each session with a fresh file is kept.
pub proof fn law_keep_fresh(s: Seq<SessionView>, statuses: Seq<FileStatus>, threshold_secs: u64)
    requires
        statuses.len() == s.len(),
    ensures
        forall|k: int|
            0 <= k < keep_fresh(s, statuses, threshold_secs).len() ==> fresh_member(
                s,
                statuses,
                threshold_secs,
                #[trigger] keep_fresh(s, statuses, threshold_secs)[k],
            ),
        forall|i: int|
            0 <= i < s.len() && is_fresh(#[trigger] statuses[i], threshold_secs) ==> keep_fresh(
                s,
                statuses,
                threshold_secs,
            ).contains(s[i]),
    decreases s.len(),
{
    if s.len() > 0 {
        let p = s.drop_last();
        let q = statuses.drop_last();
        law_keep_fresh(p, q, threshold_secs);
        let rest = keep_fresh(p, q, threshold_secs);
        let out = keep_fresh(s, statuses, threshold_secs);
        assert forall|k: int| 0 <= k < out.len() implies fresh_member(
            s,
            statuses,
            threshold_secs,
            #[trigger] out[k],
        ) by {
            if k < rest.len() {
                assert(out[k] == rest[k]);
                assert(fresh_member(p, q, threshold_secs, rest[k]));
                let i = choose|i: int|
                    0 <= i < p.len() && #[trigger] p[i] == rest[k] && is_fresh(q[i], threshold_secs);
                assert(s[i] == p[i] && statuses[i] == q[i]);
            } else {
                let i = s.len() - 1;
                assert(out[k] == s[i]);
            }
        }
        assert forall|i: int| 0 <= i < s.len() && is_fresh(#[trigger] statuses[i], threshold_secs) implies out.contains(s[i]) by {
            if i < s.len() - 1 {
                assert(s[i] == p[i] && statuses[i] == q[i]);
                let k = choose|k: int| 0 <= k < rest.len() && rest[k] == p[i];
                assert(out[k] == rest[k]);
            } else {
                assert(out[out.len() - 1] == s[i]);
            }
        }
    } else {
        assert(keep_fresh(s, statuses, threshold_secs) =~= Seq::<SessionView>::empty());
    }
}

/// A session's file name leads back to its id.
pub proof fn law_file_name_round_trip(session_id: Seq<char>)
    ensures
        session_id_of(file_name_of(session_id)) == Some(session_id),
{
    let f = file_name_of(session_id);
    assert(f.subrange(f.len() - ".json"@.len(), f.len() as int) =~= ".json"@);
    assert(f.subrange(0, f.len() - ".json"@.len()) =~= session_id);
}

} // verus!

verus! {

/// A piece between two others occurs in their concatenation.
proof fn lemma_contains_middle(a: Seq<char>, t: Seq<char>, b: Seq<char>)
    ensures
        contains_text(a + t + b, t),
{
    let s = a + t + b;
    assert(s.subrange(a.len() as int, (a.len() + t.len()) as int) =~= t);
    assert(0 <= a.len() as int <= s.len() - t.len());
}

/// Every chart paints its background and its frame in the model's colours,
/// and a chart with samples also fills its area and draws its line in them.
pub proof fn law_chart_colours(samples: Seq<u32>, model_type: Seq<char>)
    ensures
        contains_text(line_svg(samples, model_type), background_rect(model_type)),
        contains_text(line_svg(samples, model_type), frame_stroke(model_type)),
        samples.len() > 0 ==> contains_text(line_svg(samples, model_type), area_fill(model_type)),
        samples.len() > 0 ==> contains_text(line_svg(samples, model_type), line_stroke(model_type)),
{
    let m = model_type;
    let head = "<svg xmlns=\"http://www.w3.org/2000/svg\" viewBox=\"0 0 42 42\">"@
        + "<defs><clipPath id=\"rc\"><rect width=\"42\" height=\"42\" rx=\"7\"/></clipPath></defs>"@
        + "<g clip-path=\"url(#rc)\">"@;
    let frame_lead = "<rect x=\"0.5\" y=\"0.5\" width=\"41\" height=\"41\" rx=\"6.5\" fill=\"none\" "@;
    let svg = line_svg(samples, m);
    let body = if samples.len() == 0 {
        svg_suffix()
    } else {
        svg_polygon(samples, m) + svg_polyline(samples, m) + svg_suffix()
    };
    assert(svg =~= head + background_rect(m) + (frame_lead + frame_stroke(m) + body));
    lemma_contains_middle(head, background_rect(m), frame_lead + frame_stroke(m) + body);
    assert(svg =~= (head + background_rect(m) + frame_lead) + frame_stroke(m) + body);
    lemma_contains_middle(head + background_rect(m) + frame_lead, frame_stroke(m), body);
    if samples.len() > 0 {
        let poly_lead = "<polygon points=\""@ + points(samples) + seq![' '] + decimal(
            x_coord((samples.len() - 1) as nat),
        ) + ",42 "@ + decimal(x_coord(0)) + ",42"@ + "\" "@;
        let line_lead = "<polyline points=\""@ + points(samples) + "\" fill=\"none\" "@;
        let line_tail = " stroke-linejoin=\"round\" stroke-linecap=\"round\"/>"@;
        let pre = svg_prefix(m);
        assert(svg =~= (pre + poly_lead) + area_fill(m) + (svg_polyline(samples, m) + svg_suffix()));
        lemma_contains_middle(pre + poly_lead, area_fill(m), svg_polyline(samples, m) + svg_suffix());
        assert(svg =~= (pre + svg_polygon(samples, m) + line_lead) + line_stroke(m) + (line_tail
            + svg_suffix()));
        lemma_contains_middle(
            pre + svg_polygon(samples, m) + line_lead,
            line_stroke(m),
            line_tail + svg_suffix(),
        );
    }
}

} // verus!

verus! {

/// Recording a status-line record: afterwards the session under the record's
/// id carries the record's model name, usage (0 when none is reported),
/// dollar cost and duration, and the time of recording, whether the id was
/// new or known; its history ends with that usage and its peak is at least
/// that usage. A known session keeps its project and agent count and its
/// peak becomes the larger of the old peak and the usage; a new session
/// takes the given project, no agents, the usage as its peak and a history
/// of that one sample.
pub proof fn law_status_record_fields(
    s: Seq<SessionView>,
    status: StatusLineData,
    project_dir: Seq<char>,
    now: u64,
)
    requires
        ids_unique(s),
    ensures
        ({
            let used: u32 = match status.context_window.used_percentage {
                Some(u) => u,
                None => 0,
            };
            let found = lookup(apply_status(s, status, project_dir, now), status.session_id@);
            &&& found is Some
            &&& found.unwrap().session_id == status.session_id@
            &&& found.unwrap().model_name == status.model.display_name@
            &&& found.unwrap().context_used_percent == used
            &&& found.unwrap().cost_usd_bits == status.cost.total_cost_usd_bits
            &&& found.unwrap().duration_ms == status.cost.total_duration_ms
            &&& found.unwrap().last_updated_at == now
            &&& found.unwrap().peak_usage_percent >= used
            &&& found.unwrap().usage_history.len() > 0
            &&& found.unwrap().usage_history.last() == used
            &&& (lookup(s, status.session_id@) matches Some(old) ==> {
                &&& found.unwrap().project_dir == old.project_dir
                &&& found.unwrap().subagent_completed_count == old.subagent_completed_count
                &&& found.unwrap().peak_usage_percent == (if used > old.peak_usage_percent {
                    used
                } else {
                    old.peak_usage_percent
                })
            })
            &&& (lookup(s, status.session_id@) is None ==> {
                &&& found.unwrap().project_dir == project_dir
                &&& found.unwrap().subagent_completed_count == 0
                &&& found.unwrap().peak_usage_percent == used
                &&& found.unwrap().usage_history == seq![used]
            })
        }),
{
    law_status_update(s, status, project_dir, now, status.session_id@);
    law_bounded_push(
        match lookup(s, status.session_id@) {
            Some(old) => old.usage_history,
            None => Seq::empty(),
        },
        reported_usage(status),
    );
    match index_of(s, status.session_id@) {
        Some(k) => {
            assert(s[k].session_id == status.session_id@);
        },
        None => {},
    }
}

/// Recording a directly supplied session: afterwards the session under its
/// id carries the supplied usage, dollar cost and duration and the time of
/// recording, and its history ends with that usage. A known session keeps
/// its own model, project and agent count, and its peak becomes the larger
/// of the old peak and the supplied usage; a new session is stored as
/// supplied (model, project, agents, peak), apart from the time and the
/// sample added to its history.
pub proof fn law_session_record_fields(s: Seq<SessionView>, new: SessionView, now: u64)
    requires
        ids_unique(s),
    ensures
        ({
            let found = lookup(apply_session(s, new, now), new.session_id);
            &&& found is Some
            &&& found.unwrap().session_id == new.session_id
            &&& found.unwrap().context_used_percent == new.context_used_percent
            &&& found.unwrap().cost_usd_bits == new.cost_usd_bits
            &&& found.unwrap().duration_ms == new.duration_ms
            &&& found.unwrap().last_updated_at == now
            &&& found.unwrap().usage_history.len() > 0
            &&& found.unwrap().usage_history.last() == new.context_used_percent
            &&& (lookup(s, new.session_id) matches Some(old) ==> {
                &&& found.unwrap().model_name == old.model_name
                &&& found.unwrap().project_dir == old.project_dir
                &&& found.unwrap().subagent_completed_count == old.subagent_completed_count
                &&& found.unwrap().peak_usage_percent == (if new.context_used_percent
                    > old.peak_usage_percent {
                    new.context_used_percent
                } else {
                    old.peak_usage_percent
                })
            })
            &&& (lookup(s, new.session_id) is None ==> {
                &&& found.unwrap().model_name == new.model_name
                &&& found.unwrap().project_dir == new.project_dir
                &&& found.unwrap().subagent_completed_count == new.subagent_completed_count
                &&& found.unwrap().peak_usage_percent == new.peak_usage_percent
            })
        }),
{
    law_session_update(s, new, now, new.session_id);
    law_bounded_push(
        match lookup(s, new.session_id) {
            Some(old) => old.usage_history,
            None => new.usage_history,
        },
        new.context_used_percent,
    );
    match index_of(s, new.session_id) {
        Some(k) => {
            assert(s[k].session_id == new.session_id);
        },
        None => {},
    }
}

/// The chart colours of the model families: Opus orange `#FF8C1A`, Sonnet
/// blue `#3366E6`, Haiku green `#1AB34D`, anything else grey `#808080`. For
/// the three families the fill is the line colour at alpha `60` and the
/// frame the line colour at alpha `40`; other models get fill `#80808060`
/// and a white frame. The background is the same dark grey for all.
pub proof fn law_model_colours(model_type: Seq<char>)
    ensures
        line_color("Opus"@) == seq!['#', 'F', 'F', '8', 'C', '1', 'A'],
        line_color("Sonnet"@) == seq!['#', '3', '3', '6', '6', 'E', '6'],
        line_color("Haiku"@) == seq!['#', '1', 'A', 'B', '3', '4', 'D'],
        (model_type == "Opus"@ || model_type == "Sonnet"@ || model_type == "Haiku"@) ==> {
            &&& fill_color(model_type) == line_color(model_type) + seq!['6', '0']
            &&& frame_color(model_type) == line_color(model_type) + seq!['4', '0']
        },
        !(model_type == "Opus"@ || model_type == "Sonnet"@ || model_type == "Haiku"@) ==> {
            &&& line_color(model_type) == seq!['#', '8', '0', '8', '0', '8', '0']
            &&& fill_color(model_type) == seq!['#', '8', '0', '8', '0', '8', '0', '6', '0']
            &&& frame_color(model_type) == seq!['#', 'F', 'F', 'F', 'F', 'F', 'F']
        },
        background_color() == seq!['#', '1', 'A', '1', 'A', '1', 'A', 'E', '0'],
{
    reveal_strlit("Opus");
    reveal_strlit("Sonnet");
    reveal_strlit("Haiku");
    reveal_strlit("#FF8C1A");
    reveal_strlit("#3366E6");
    reveal_strlit("#1AB34D");
    reveal_strlit("#808080");
    reveal_strlit("#FF8C1A60");
    reveal_strlit("#3366E660");
    reveal_strlit("#1AB34D60");
    reveal_strlit("#80808060");
    reveal_strlit("#FF8C1A40");
    reveal_strlit("#3366E640");
    reveal_strlit("#1AB34D40");
    reveal_strlit("#FFFFFF");
    reveal_strlit("#1A1A1AE0");
    assert("Opus"@ != "Sonnet"@) by {
        assert("Opus"@[0] != "Sonnet"@[0]);
    }
    assert("Opus"@ != "Haiku"@) by {
        assert("Opus"@[0] != "Haiku"@[0]);
    }
    assert("Sonnet"@ != "Haiku"@) by {
        assert("Sonnet"@[0] != "Haiku"@[0]);
    }
    assert(line_color("Opus"@) =~= seq!['#', 'F', 'F', '8', 'C', '1', 'A']);
    assert(line_color("Sonnet"@) =~= seq!['#', '3', '3', '6', '6', 'E', '6']);
    assert(line_color("Haiku"@) =~= seq!['#', '1', 'A', 'B', '3', '4', 'D']);
    assert("#FF8C1A"@ + seq!['6', '0'] =~= "#FF8C1A60"@);
    assert("#3366E6"@ + seq!['6', '0'] =~= "#3366E660"@);
    assert("#1AB34D"@ + seq!['6', '0'] =~= "#1AB34D60"@);
    assert("#FF8C1A"@ + seq!['4', '0'] =~= "#FF8C1A40"@);
    assert("#3366E6"@ + seq!['4', '0'] =~= "#3366E640"@);
    assert("#1AB34D"@ + seq!['4', '0'] =~= "#1AB34D40"@);
    assert("#808080"@ =~= seq!['#', '8', '0', '8', '0', '8', '0']);
    assert("#80808060"@ =~= seq!['#', '8', '0', '8', '0', '8', '0', '6', '0']);
    assert("#FFFFFF"@ =~= seq!['#', 'F', 'F', 'F', 'F', 'F', 'F']);
    assert("#1A1A1AE0"@ =~= seq!['#', '1', 'A', '1', 'A', '1', 'A', 'E', '0']);
}

/// A file of age `a` seconds is fresh exactly when `a` is below the
/// threshold passed in; a missing file or an unreadable time is never fresh,
/// a time in the future always is; and raising the threshold never turns a
/// fresh file stale.
pub proof fn law_freshness(status: FileStatus, a: u64, t1: u64, t2: u64)
    ensures
        is_fresh(FileStatus::Age(a), t1) <==> a < t1,
        !is_fresh(FileStatus::Missing, t1),
        !is_fresh(FileStatus::MtimeUnavailable, t1),
        is_fresh(FileStatus::ModifiedInFuture, t1),
        t1 <= t2 && is_fresh(status, t1) ==> is_fresh(status, t2),
{
}

/// In a store with distinct ids, a session whose file is `a` seconds old
/// survives the stale sweep exactly when `a` is below the threshold.
pub proof fn law_sweep_by_age(
    s: Seq<SessionView>,
    statuses: Seq<FileStatus>,
    threshold_secs: u64,
    i: int,
    a: u64,
)
    requires
        ids_unique(s),
        statuses.len() == s.len(),
        0 <= i < s.len(),
        statuses[i] == FileStatus::Age(a),
    ensures
        keep_fresh(s, statuses, threshold_secs).contains(s[i]) <==> a < threshold_secs,
{
    law_keep_fresh(s, statuses, threshold_secs);
    let out = keep_fresh(s, statuses, threshold_secs);
    if out.contains(s[i]) {
        let k = choose|k: int| 0 <= k < out.len() && out[k] == s[i];
        assert(fresh_member(s, statuses, threshold_secs, out[k]));
        let j = choose|j: int|
            0 <= j < s.len() && #[trigger] s[j] == out[k] && is_fresh(statuses[j], threshold_secs);
        assert(s[j].session_id == s[i].session_id);
        assert(j == i);
    }
}

/// A headline is the model name, then `" | "`, then the project directory,
/// then `" | "`, then the usage in decimal followed by `%`: each part stands
/// unchanged at its place, for every model name, project and usage.
pub proof fn law_headline_parts(model_name: Seq<char>, project_dir: Seq<char>, used_percent: u32)
    ensures
        ({
            let h = headline_text(model_name, project_dir, used_percent);
            let m = model_name.len() as int;
            let p = project_dir.len() as int;
            &&& h.len() == m + p + 6 + decimal(used_percent as nat).len() + 1
            &&& h.subrange(0, m) == model_name
            &&& h.subrange(m, m + 3) == seq![' ', '|', ' ']
            &&& h.subrange(m + 3, m + 3 + p) == project_dir
            &&& h.subrange(m + 3 + p, m + 6 + p) == seq![' ', '|', ' ']
            &&& h.subrange(m + 6 + p, h.len() as int) == decimal(used_percent as nat).push('%')
        }),
{
    reveal_strlit(" | ");
    let h = headline_text(model_name, project_dir, used_percent);
    let m = model_name.len() as int;
    let p = project_dir.len() as int;
    assert(" | "@ =~= seq![' ', '|', ' ']);
    assert(h.subrange(0, m) =~= model_name);
    assert(h.subrange(m, m + 3) =~= seq![' ', '|', ' ']);
    assert(h.subrange(m + 3, m + 3 + p) =~= project_dir);
    assert(h.subrange(m + 3 + p, m + 6 + p) =~= seq![' ', '|', ' ']);
    assert(h.subrange(m + 6 + p, h.len() as int) =~= decimal(used_percent as nat).push('%'));
}

} // verus!

verus! {

/// The numeric value of an ASCII digit.
pub open spec fn digit_value(c: char) -> int {
    (c as u32) - ('0' as u32)
}

/// The number that a string of decimal digits denotes.
pub open spec fn digits_value(s: Seq<char>) -> int
    decreases s.len(),
{
    if s.len() == 0 {
        0
    } else {
        digits_value(s.drop_last()) * 10 + digit_value(s.last())
    }
}

/// The digit character of `d` denotes `d % 10`.
proof fn lemma_digit_value(d: nat)
    ensures
        digit_value(crate::text::digit_char(d)) == d % 10,
        '0' <= crate::text::digit_char(d) <= '9',
        d % 10 != 0 ==> crate::text::digit_char(d) != '0',
{
    assert('0' as u32 == 48);
    assert('1' as u32 == 49);
    assert('2' as u32 == 50);
    assert('3' as u32 == 51);
    assert('4' as u32 == 52);
    assert('5' as u32 == 53);
    assert('6' as u32 == 54);
    assert('7' as u32 == 55);
    assert('8' as u32 == 56);
    assert('9' as u32 == 57);
}

/// The decimal rendering of `n` is a non-empty string of ASCII digits that
/// denotes `n`, with no leading zero unless `n` is zero.
pub proof fn law_decimal(n: nat)
    ensures
        decimal(n).len() > 0,
        forall|i: int| 0 <= i < decimal(n).len() ==> '0' <= #[trigger] decimal(n)[i] <= '9',
        digits_value(decimal(n)) == n,
        n > 0 ==> decimal(n)[0] != '0',
    decreases n,
{
    lemma_digit_value(n);
    if n >= 10 {
        law_decimal(n / 10);
        let d = decimal(n);
        assert(d.drop_last() =~= decimal(n / 10));
        assert(digits_value(d) == digits_value(decimal(n / 10)) * 10 + digit_value(d.last()));
        assert(d.last() == crate::text::digit_char(n % 10));
        assert forall|i: int| 0 <= i < d.len() implies '0' <= #[trigger] d[i] <= '9' by {
            if i < d.len() - 1 {
                assert(d[i] == decimal(n / 10)[i]);
            }
        }
        assert(d[0] == decimal(n / 10)[0]);
    } else {
        assert(decimal(n).drop_last() =~= Seq::<char>::empty());
        assert(digits_value(decimal(n)) == digits_value(Seq::<char>::empty()) * 10 + digit_value(
            decimal(n).last(),
        ));
    }
}

} // verus!
