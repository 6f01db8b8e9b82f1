//! Channel-notify reconciliation: rendering the on-call set as mention
//! tokens, merging it into a channel topic, choosing the announcement text,
//! and the per-tick decision of a channel-notify poller. The poller's timer,
//! cancellation channel and network calls live outside this crate; each tick
//! hands the fetched values in and acts on the returned decision.
//!
//! A topic is a list of segments separated by `" | "`. At most one segment
//! is expected to carry the prefix `"Current oncall: "`; merging replaces
//! the suffix of every segment that carries it (the last one decides whether
//! anything changed) or appends a new prefixed segment when none does.
use vstd::prelude::*;
use vstd::string::*;
use crate::models::UserMapping;
use crate::opsgenie;
use crate::slack;
use crate::slack::Channel;
use crate::sync::resolve_ids;
use crate::sync::resolve_ids_spec;
use crate::text::is_prefix_of;
use crate::text::join_str;
use crate::text::join_with;
use crate::text::split_on;
use crate::text::split_str;
use crate::text::starts_with_str;
use crate::text::str_eq;

verus! {

/// The fixed separator between topic segments.
pub open spec fn topic_separator() -> Seq<char> {
    " | "@
}

/// The fixed prefix of the segment that carries the rendered on-call set.
pub open spec fn oncall_prefix() -> Seq<char> {
    "Current oncall: "@
}

/// A mention token for one directory user ID.
pub open spec fn mention_of(id: Seq<char>) -> Seq<char> {
    "<@"@ + id + ">"@
}

/// The mention tokens of the IDs, space-joined, in order.
pub open spec fn mentions_of(ids: Seq<Seq<char>>) -> Seq<char>
    decreases ids.len(),
{
    if ids.len() == 0 {
        Seq::empty()
    } else if ids.len() == 1 {
        mention_of(ids[0])
    } else {
        mentions_of(ids.drop_last()) + " "@ + mention_of(ids.last())
    }
}

/// The rendered on-call set: space-joined mentions, or the fixed literal
/// when nobody is on call.
pub open spec fn rendered_oncalls(ids: Seq<Seq<char>>) -> Seq<char> {
    if ids.len() == 0 {
        "nobody"@
    } else {
        mentions_of(ids)
    }
}

/// Render the resolved on-call set as the topic suffix: one mention per
/// directory user ID in resolution order, space-joined; an empty set
/// renders as `"nobody"`.
pub fn render_oncall_string(ids: &Vec<String>) -> (r: String)
    ensures
        r@ == rendered_oncalls(ids.deep_view()),
{
    if ids.len() == 0 {
        return "nobody".to_owned();
    }
    let mut out = String::new();
    out.append("<@");
    out.append(ids[0].as_str());
    out.append(">");
    let mut k: usize = 1;
    while k < ids.len()
        invariant
            1 <= k <= ids@.len(),
            out@ == mentions_of(ids.deep_view().take(k as int)),
        decreases ids@.len() - k,
    {
        out.append(" ");
        out.append("<@");
        out.append(ids[k].as_str());
        out.append(">");
        proof {
            let dv = ids.deep_view();
            assert(dv.take(k + 1).drop_last() =~~= dv.take(k as int));
            assert(dv.take(k + 1).last() == dv[k as int]);
        }
        k += 1;
    }
    proof {
        assert(ids.deep_view().take(ids@.len() as int) =~~= ids.deep_view());
    }
    out
}

/// Each segment carrying the on-call prefix replaced by the prefix plus the
/// freshly rendered set; every other segment passes through unchanged.
pub open spec fn replace_oncall_segments(parts: Seq<Seq<char>>, rendered: Seq<char>) -> Seq<
    Seq<char>,
> {
    parts.map_values(
        |p: Seq<char>|
            if is_prefix_of(oncall_prefix(), p) {
                oncall_prefix() + rendered
            } else {
                p
            },
    )
}

/// Some segment carries the on-call prefix.
pub open spec fn has_oncall_segment(parts: Seq<Seq<char>>) -> bool {
    exists|k: int| 0 <= k < parts.len() && is_prefix_of(oncall_prefix(), parts[k])
}

/// `k` is the last segment carrying the on-call prefix.
pub open spec fn last_oncall_segment_at(parts: Seq<Seq<char>>, k: int) -> bool {
    &&& 0 <= k < parts.len()
    &&& is_prefix_of(oncall_prefix(), parts[k])
    &&& forall|j: int| k < j < parts.len() ==> !is_prefix_of(oncall_prefix(), parts[j])
}

/// Two positions that are both the last prefixed segment coincide.
proof fn lemma_last_oncall_segment_unique(parts: Seq<Seq<char>>, i: int, j: int)
    requires
        last_oncall_segment_at(parts, i),
        last_oncall_segment_at(parts, j),
    ensures
        i == j,
{
}

/// The topic after merging the rendered on-call set in: if a prefixed
/// segment exists, the topic with every prefixed segment's suffix replaced;
/// otherwise the prefixed segment is appended (an empty topic becomes just
/// the new segment).
pub open spec fn merged_topic(topic: Seq<char>, rendered: Seq<char>) -> Seq<char> {
    let parts = split_on(topic, topic_separator());
    if has_oncall_segment(parts) {
        join_with(replace_oncall_segments(parts, rendered), topic_separator())
    } else if topic.len() == 0 {
        oncall_prefix() + rendered
    } else {
        topic + topic_separator() + oncall_prefix() + rendered
    }
}

/// The merge changed something: no prefixed segment existed, or the last
/// prefixed segment's suffix differed from the freshly rendered set.
pub open spec fn topic_needs_update(topic: Seq<char>, rendered: Seq<char>) -> bool {
    let parts = split_on(topic, topic_separator());
    if has_oncall_segment(parts) {
        let k = choose|k: int| last_oncall_segment_at(parts, k);
        parts[k].skip(oncall_prefix().len() as int) != rendered
    } else {
        true
    }
}

/// Merge the rendered on-call set into a channel topic. Returns the
/// candidate new topic and whether it differs from what the topic already
/// said about the on-call set.
pub fn merge_topic(topic: &str, rendered: &str) -> (r: (String, bool))
    ensures
        r.0@ == merged_topic(topic@, rendered@),
        r.1 == topic_needs_update(topic@, rendered@),
{
    proof {
        reveal_strlit(" | ");
    }
    let parts = split_str(topic, " | ");
    let prefix = "Current oncall: ";
    let plen = prefix.unicode_len();
    let mut new_parts: Vec<String> = Vec::new();
    let mut has = false;
    let mut needs = true;
    let ghost mut last_idx: int = 0;
    let mut k: usize = 0;
    while k < parts.len()
        invariant
            k <= parts@.len(),
            prefix@ == oncall_prefix(),
            plen == oncall_prefix().len(),
            new_parts.deep_view() == replace_oncall_segments(
                parts.deep_view().take(k as int),
                rendered@,
            ),
            has == has_oncall_segment(parts.deep_view().take(k as int)),
            has ==> last_oncall_segment_at(parts.deep_view().take(k as int), last_idx),
            has ==> needs == (parts.deep_view()[last_idx].skip(oncall_prefix().len() as int)
                != rendered@),
            has || needs,
        decreases parts@.len() - k,
    {
        let ghost dv = parts.deep_view();
        let ghost prev_new = new_parts.deep_view();
        let ghost transformed = if is_prefix_of(oncall_prefix(), dv[k as int]) {
            oncall_prefix() + rendered@
        } else {
            dv[k as int]
        };
        let part: &String = &parts[k];
        if starts_with_str(part.as_str(), prefix) {
            has = true;
            let part_len = part.as_str().unicode_len();
            let suffix = part.as_str().substring_char(plen, part_len);
            needs = !str_eq(suffix, rendered);
            let mut np = prefix.to_owned();
            np.append(rendered);
            new_parts.push(np);
            proof {
                last_idx = k as int;
                assert(suffix@ =~= dv[k as int].skip(oncall_prefix().len() as int));
                assert(np@ == transformed);
            }
        } else {
            new_parts.push(part.clone());
            proof {
                assert(parts@[k as int]@ == transformed);
            }
        }
        proof {
            assert(new_parts.deep_view() =~~= prev_new.push(transformed));
            assert(dv.take(k + 1) =~~= dv.take(k as int).push(dv[k as int]));
            assert(replace_oncall_segments(dv.take(k + 1), rendered@)
                =~~= replace_oncall_segments(dv.take(k as int), rendered@).push(transformed)) by {
                assert forall|m: int| 0 <= m < k + 1 implies replace_oncall_segments(
                    dv.take(k + 1),
                    rendered@,
                )[m] == replace_oncall_segments(dv.take(k as int), rendered@).push(
                    transformed,
                )[m] by {
                    assert(dv.take(k + 1)[m] == dv[m]);
                    if m < k {
                        assert(dv.take(k as int)[m] == dv[m]);
                    }
                }
            }
            // The prefixed-segment bookkeeping for the extended prefix.
            if is_prefix_of(oncall_prefix(), dv[k as int]) {
                assert(dv.take(k + 1)[k as int] == dv[k as int]);
                assert(has_oncall_segment(dv.take(k + 1)));
                assert(last_oncall_segment_at(dv.take(k + 1), last_idx));
            } else {
                if has_oncall_segment(dv.take(k + 1)) {
                    let w = choose|w: int|
                        0 <= w < dv.take(k + 1).len() && #[trigger] is_prefix_of(
                            oncall_prefix(),
                            dv.take(k + 1)[w],
                        );
                    assert(dv.take(k + 1)[w] == dv[w]);
                    if w < k {
                        assert(dv.take(k as int)[w] == dv[w]);
                        assert(has_oncall_segment(dv.take(k as int)));
                    }
                }
                assert(has == has_oncall_segment(dv.take(k + 1)));
                if has {
                    assert(last_oncall_segment_at(dv.take(k as int), last_idx));
                    assert(dv.take(k as int)[last_idx] == dv[last_idx]);
                    assert forall|j: int|
                        last_idx < j < k + 1 implies !(#[trigger] is_prefix_of(
                        oncall_prefix(),
                        dv.take(k + 1)[j],
                    )) by {
                        assert(dv.take(k + 1)[j] == dv[j]);
                        if j < k {
                            assert(dv.take(k as int)[j] == dv[j]);
                        }
                    }
                    assert(last_oncall_segment_at(dv.take(k + 1), last_idx));
                }
            }
        }
        k += 1;
    }
    proof {
        assert(parts.deep_view().take(parts@.len() as int) =~~= parts.deep_view());
    }
    if has {
        let joined = join_str(&new_parts, " | ");
        proof {
            let dv = parts.deep_view();
            let c = choose|k0: int| last_oncall_segment_at(dv, k0);
            lemma_last_oncall_segment_unique(dv, c, last_idx);
        }
        (joined, needs)
    } else if topic.is_empty() {
        let mut t = prefix.to_owned();
        t.append(rendered);
        (t, true)
    } else {
        let mut t = topic.to_owned();
        t.append(" | ");
        t.append(prefix);
        t.append(rendered);
        (t, true)
    }
}

/// The fixed announcement posted when nobody is on call.
pub open spec fn out_of_hours_text() -> Seq<char> {
    "This channel's oncall is out of hours. Please wait for the next oncall for urgent requests."@
}

/// The announcement posted when the on-call set changed to a non-empty set.
pub open spec fn new_oncall_text(rendered: Seq<char>) -> Seq<char> {
    "There's a new oncall! Please direct all questions to "@ + rendered
}

/// The announcement that accompanies a topic update: names the current
/// on-call set, or states that no one is on call.
pub open spec fn announcement_of(resolved: Seq<Seq<char>>) -> Seq<char> {
    if resolved.len() == 0 {
        out_of_hours_text()
    } else {
        new_oncall_text(rendered_oncalls(resolved))
    }
}

/// What a channel-notify poller does with one tick's fetched values.
#[derive(Debug)]
pub enum NotifyAction {
    /// The roster fetch or the channel fetch failed: log it and wait for the
    /// next tick.
    Skip,
    /// The topic already reflects the on-call set: post nothing, change
    /// nothing.
    NoChange,
    /// Set the channel's topic to `topic` and post `message`.
    Update { topic: String, message: String },
}

/// One tick of a channel-notify poller: a failed roster or channel fetch
/// skips the tick; otherwise the roster is resolved against the
/// identity-mapping table, rendered, and merged into the channel's current
/// topic. The topic is updated and an announcement posted exactly when the
/// merge changed the on-call segment — an unchanged segment produces no
/// message, which is what keeps ticks idempotent.
pub fn notify_tick(
    fetched: &Result<Vec<String>, opsgenie::Error>,
    table: &Vec<UserMapping>,
    channel: &Result<Channel, slack::Error>,
) -> (r: NotifyAction)
    ensures
        match (fetched, channel) {
            (Ok(ids), Ok(ch)) => {
                let resolved = resolve_ids_spec(table@, ids.deep_view());
                let rendered = rendered_oncalls(resolved);
                if topic_needs_update(ch.topic.value@, rendered) {
                    r matches NotifyAction::Update { topic, message } && topic@ == merged_topic(
                        ch.topic.value@,
                        rendered,
                    ) && message@ == announcement_of(resolved)
                } else {
                    r is NoChange
                }
            },
            _ => r is Skip,
        },
{
    match (fetched, channel) {
        (Ok(ids), Ok(ch)) => {
            let resolved = resolve_ids(table, ids);
            let rendered = render_oncall_string(&resolved);
            let merged = merge_topic(ch.topic.value.as_str(), rendered.as_str());
            let (new_topic, needs) = merged;
            if needs {
                let message = if resolved.len() == 0 {
                    "This channel's oncall is out of hours. Please wait for the next oncall for urgent requests.".to_owned()
                } else {
                    let mut m = "There's a new oncall! Please direct all questions to ".to_owned();
                    m.append(rendered.as_str());
                    m
                };
                NotifyAction::Update { topic: new_topic, message }
            } else {
                NotifyAction::NoChange
            }
        },
        _ => NotifyAction::Skip,
    }
}

} // verus!
