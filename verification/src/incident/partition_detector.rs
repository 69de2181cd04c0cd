//! Partitions of the network: how they are found, whom they are told, and what
//! is recommended against them.

use vstd::prelude::*;
use vstd::string::*;
use crate::clock::{FIRST_SECOND, Timestamp, earlier, law_whole_units, whole};
use crate::crd::incident::{
    AlertChannelConfig, AlertChannelType, AlertDispatchResult, IncidentPhase, IncidentSeverity,
    IncidentSpec, IncidentStatus, IncidentTimelineEntry, IncidentType, PartitionDetails,
    QuorumAdjustmentRecommendation,
};
use crate::json::{Doc, Json, at2, group_members};
use crate::str_map::{StrMap, with_entry};
use crate::text::{
    cat2, cat3, cat5, cat7, copy_texts, decimal, decimal_text, join, joined, signed_decimal,
    signed_decimal_text, views,
};

verus! {

/// Finds partitions by the ledgers that do not close.
#[derive(Clone, Copy, Debug)]
pub struct PartitionIncidentDetector {
    /// How many seconds a ledger should take.
    pub expected_close_time_secs: u32,
    /// From how many ledgers on that do not close there is a partition.
    pub partition_miss_threshold: u32,
}

/// The whole seconds since the last ledger; none where it lies ahead.
pub open spec fn stalled_for(last: int, now: int) -> int {
    let n = whole(now - last, 1_000_000_000);
    if n < 0 {
        0
    } else {
        n
    }
}

/// How many ledgers have not closed, in 32 bits.
pub open spec fn missed_closes(elapsed: int, close_time: int) -> int {
    (elapsed / close_time) % 0x1_0000_0000
}

/// The threshold for so many validators: two thirds of them, rounded up, and at
/// least one. Of `3 f + 1` validators these are `2 f + 1`.
pub open spec fn quorum_threshold(reachable: int) -> int {
    if reachable < 1 {
        1
    } else {
        reachable - reachable / 3
    }
}

/// What the recommendation says.
pub open spec fn rationale_text(unreachable: Seq<Seq<char>>, reachable: int) -> Seq<char> {
    "Network partition isolated "@ + decimal(unreachable.len() as int) + " peer(s) ("@ + joined(
        unreachable,
        ", "@,
    )
        + "). To restore SCP consensus liveness without compromising ledger immutability, adjust quorum threshold from 67% of original cluster to "@
        + decimal(quorum_threshold(reachable)) + " of "@ + decimal(reachable)
        + " reachable nodes."@
}

/// What is to be done.
pub open spec fn action_texts(unreachable: Seq<Seq<char>>, reachable: int) -> Seq<Seq<char>> {
    seq![
        "1. Notify on-call operators and federation cluster admins."@,
        "2. Apply temporary quorum override excluding isolated peers: ["@ + joined(
            unreachable,
            ", "@,
        ) + "]."@,
        "3. Set updated validator quorum threshold to "@ + decimal(quorum_threshold(reachable))
            + " / "@ + decimal(reachable) + "."@,
        "4. Monitor stellar-core SCP sync state via /info until State reaches 'Synced'."@,
        "5. Revert quorum adjustment upon partition healing and network reconnection."@,
    ]
}

/// How many of the validators may fail in any way: less than a third of them.
pub open spec fn tolerated_faults(reachable: int) -> int {
    (reachable - 1) / 3
}

/// The threshold is met by the validators that can be reached, even without
/// those that may fail.
pub proof fn law_threshold_can_be_met(reachable: int)
    requires
        reachable >= 1,
    ensures
        1 <= quorum_threshold(reachable) <= reachable - tolerated_faults(reachable),
{
}

/// Any two sets of validators that meet the threshold share more validators than
/// may fail, so that they cannot agree on different ledgers. Of `3 f + 1`
/// validators `2 f + 1` meet it.
pub proof fn law_threshold_is_safe(reachable: int, f: int)
    requires
        reachable >= 1,
        f >= 0,
    ensures
        2 * quorum_threshold(reachable) - reachable > tolerated_faults(reachable),
        quorum_threshold(3 * f + 1) == 2 * f + 1,
        tolerated_faults(3 * f + 1) == f,
{
}

/// With the usual ledgers of five seconds and a threshold of three, there is a
/// partition exactly from 15 seconds without a ledger on, but for stalls of more
/// than 680 years.
pub proof fn law_partition_after_three_ledgers(elapsed: int)
    requires
        0 <= elapsed < 5 * 0x1_0000_0000,
    ensures
        missed_closes(elapsed, 5) >= 3 <==> elapsed >= 15,
{
}

proof fn lemma_truncated(n: u64)
    ensures
        (n as u32) as int == n as int % 0x1_0000_0000,
{
    assert(n as u32 == n % 0x1_0000_0000) by (bit_vector);
}

impl PartitionIncidentDetector {
    /// A detector with the usual parameters: ledgers of five seconds, and a
    /// partition after three that did not close.
    pub fn new() -> (r: Self)
        ensures
            r.expected_close_time_secs == 5,
            r.partition_miss_threshold == 3,
    {
        PartitionIncidentDetector { expected_close_time_secs: 5, partition_miss_threshold: 3 }
    }

    /// Whether consensus has stalled for so long that there is a partition, and
    /// what is known of it.
    pub fn evaluate_partition(
        &self,
        last_ledger_time: Timestamp,
        now: Timestamp,
        unreachable_peers: Vec<String>,
        reachable_peers: Vec<String>,
    ) -> (r: Option<PartitionDetails>)
        requires
            self.expected_close_time_secs > 0,
        ensures
            ({
                let elapsed = stalled_for(last_ledger_time.instant(), now.instant());
                let missed = missed_closes(elapsed, self.expected_close_time_secs as int);
                match r {
                    Some(p) => missed >= self.partition_miss_threshold && p.missed_ledger_closes
                        == missed && p.expected_close_time_secs == self.expected_close_time_secs
                        && p.last_closed_ledger == 54_892_100 && p.stall_duration_secs == elapsed
                        && p.unreachable_peers == unreachable_peers && p.reachable_peers
                        == reachable_peers,
                    None => missed < self.partition_miss_threshold,
                }
            }),
    {
        let passed: i64 = now.seconds_since(last_ledger_time);
        let elapsed: u64 = if passed < 0 {
            0
        } else {
            passed as u64
        };
        let closes: u64 = elapsed / self.expected_close_time_secs as u64;
        proof {
            lemma_truncated(closes);
        }
        let missed: u32 = #[verifier::truncate]
        (closes as u32);
        if missed >= self.partition_miss_threshold {
            Some(
                PartitionDetails {
                    missed_ledger_closes: missed,
                    expected_close_time_secs: self.expected_close_time_secs,
                    last_closed_ledger: 54_892_100,
                    stall_duration_secs: elapsed,
                    unreachable_peers,
                    reachable_peers,
                },
            )
        } else {
            None
        }
    }

    /// How the quorum could be changed while the partition lasts.
    pub fn generate_quorum_recommendation(&self, partition: &PartitionDetails) -> (r:
        QuorumAdjustmentRecommendation)
        requires
            partition.reachable_peers@.len() <= u32::MAX,
        ensures
            views(r.suggested_quorum_set@) == views(partition.reachable_peers@),
            r.new_threshold == quorum_threshold(partition.reachable_peers@.len() as int),
            r.rationale@ == rationale_text(
                views(partition.unreachable_peers@),
                partition.reachable_peers@.len() as int,
            ),
            views(r.action_plan@) == action_texts(
                views(partition.unreachable_peers@),
                partition.reachable_peers@.len() as int,
            ),
    {
        let suggested_quorum_set = copy_texts(&partition.reachable_peers);
        let total_reachable: u32 = partition.reachable_peers.len() as u32;
        let new_threshold: u32 = if total_reachable < 1 {
            1
        } else {
            total_reachable - total_reachable / 3
        };
        let isolated = join(&partition.unreachable_peers, ", ");
        let threshold_text = decimal_text(new_threshold as u64);
        let total_text = decimal_text(total_reachable as u64);
        assert(views(partition.unreachable_peers@).len() == partition.unreachable_peers@.len());
        let first = cat5(
            "Network partition isolated ",
            &decimal_text(partition.unreachable_peers.len() as u64),
            " peer(s) (",
            &isolated,
            "). To restore SCP consensus liveness without compromising ledger immutability, adjust quorum threshold from 67% of original cluster to ",
        );
        let rationale = cat5(&first, &threshold_text, " of ", &total_text, " reachable nodes.");
        let mut action_plan: Vec<String> = Vec::new();
        action_plan.push("1. Notify on-call operators and federation cluster admins.".to_string());
        action_plan.push(
            cat3(
                "2. Apply temporary quorum override excluding isolated peers: [",
                &isolated,
                "].",
            ),
        );
        action_plan.push(
            cat5(
                "3. Set updated validator quorum threshold to ",
                &threshold_text,
                " / ",
                &total_text,
                ".",
            ),
        );
        action_plan.push(
            "4. Monitor stellar-core SCP sync state via /info until State reaches 'Synced'.".to_string(),
        );
        action_plan.push(
            "5. Revert quorum adjustment upon partition healing and network reconnection.".to_string(),
        );
        assert(views(action_plan@) =~= action_texts(
            views(partition.unreachable_peers@),
            partition.reachable_peers@.len() as int,
        ));
        QuorumAdjustmentRecommendation {
            suggested_quorum_set,
            new_threshold,
            rationale,
            action_plan,
        }
    }
}

/// The alert for people to read.
pub open spec fn alert_text(
    title: Seq<char>,
    p: PartitionDetails,
    rec: QuorumAdjustmentRecommendation,
) -> Seq<char> {
    "🚨 *CRITICAL INCIDENT: Network Partition Detected*\n*Title*: "@ + title
        + "\n*Missed Ledger Closes*: "@ + decimal(p.missed_ledger_closes as int) + " (~"@ + decimal(
        p.stall_duration_secs as int,
    ) + "s consensus stall)\n*Unreachable Peers*: "@ + joined(views(p.unreachable_peers@), ", "@)
        + "\n*Recommended Quorum Threshold*: "@ + decimal(rec.new_threshold as int)
        + " nodes\n*Action*: Review Incident CR for automated timeline and runbook."@
}

fn alert_message(
    title: &str,
    p: &PartitionDetails,
    rec: &QuorumAdjustmentRecommendation,
) -> (r: String)
    ensures
        r@ == alert_text(title@, *p, *rec),
{
    let first = cat5(
        "🚨 *CRITICAL INCIDENT: Network Partition Detected*\n*Title*: ",
        title,
        "\n*Missed Ledger Closes*: ",
        &decimal_text(p.missed_ledger_closes as u64),
        " (~",
    );
    cat7(
        &first,
        &decimal_text(p.stall_duration_secs),
        "s consensus stall)\n*Unreachable Peers*: ",
        &join(&p.unreachable_peers, ", "),
        "\n*Recommended Quorum Threshold*: ",
        &decimal_text(rec.new_threshold as u64),
        " nodes\n*Action*: Review Incident CR for automated timeline and runbook.",
    )
}

/// A partition as a document. The part of the quorum that can be reached comes
/// as a number in writing, in percent.
pub open spec fn partition_doc(p: PartitionDetails, health: Seq<char>) -> Doc {
    Doc::object().with("missedLedgerCloses"@, Doc::Number(decimal(p.missed_ledger_closes as int)))
        .with(
        "expectedCloseTimeSecs"@,
        Doc::Number(decimal(p.expected_close_time_secs as int)),
    ).with("lastClosedLedger"@, Doc::Number(decimal(p.last_closed_ledger as int))).with(
        "stallDurationSecs"@,
        Doc::Number(decimal(p.stall_duration_secs as int)),
    ).with("unreachablePeers"@, Doc::texts(views(p.unreachable_peers@))).with(
        "reachablePeers"@,
        Doc::texts(views(p.reachable_peers@)),
    ).with("quorumHealthPct"@, Doc::Number(health))
}

/// A partition as a document.
pub fn partition_json(p: &PartitionDetails, health: &str) -> (r: Json)
    ensures
        r@ == partition_doc(*p, health@),
{
    Json::object().with(
        "missedLedgerCloses",
        Json::Number(decimal_text(p.missed_ledger_closes as u64)),
    ).with(
        "expectedCloseTimeSecs",
        Json::Number(decimal_text(p.expected_close_time_secs as u64)),
    ).with("lastClosedLedger", Json::Number(decimal_text(p.last_closed_ledger))).with(
        "stallDurationSecs",
        Json::Number(decimal_text(p.stall_duration_secs)),
    ).with("unreachablePeers", Json::texts(&p.unreachable_peers)).with(
        "reachablePeers",
        Json::texts(&p.reachable_peers),
    ).with("quorumHealthPct", Json::Number(health.to_string()))
}

/// A recommendation as a document.
pub open spec fn recommendation_doc(rec: QuorumAdjustmentRecommendation) -> Doc {
    Doc::object().with("suggestedQuorumSet"@, Doc::texts(views(rec.suggested_quorum_set@))).with(
        "newThreshold"@,
        Doc::Number(decimal(rec.new_threshold as int)),
    ).with("rationale"@, Doc::Text(rec.rationale@)).with(
        "actionPlan"@,
        Doc::texts(views(rec.action_plan@)),
    )
}

/// A recommendation as a document.
pub fn recommendation_json(rec: &QuorumAdjustmentRecommendation) -> (r: Json)
    ensures
        r@ == recommendation_doc(*rec),
{
    Json::object().with("suggestedQuorumSet", Json::texts(&rec.suggested_quorum_set)).with(
        "newThreshold",
        Json::Number(decimal_text(rec.new_threshold as u64)),
    ).with("rationale", Json::text(&rec.rationale)).with(
        "actionPlan",
        Json::texts(&rec.action_plan),
    )
}

/// What is sent to a channel.
pub open spec fn alert_doc(
    channel: AlertChannelConfig,
    title: Seq<char>,
    p: PartitionDetails,
    rec: QuorumAdjustmentRecommendation,
    health: Seq<char>,
    now: Timestamp,
) -> Doc {
    let message = alert_text(title, p, rec);
    match channel.channel_type {
        AlertChannelType::Slack => Doc::object().with("text"@, Doc::Text(message)).with(
            "username"@,
            Doc::Text("Stellar-K8s Partition Monitor"@),
        ).with("icon_emoji"@, Doc::Text(":rotating_light:"@)),
        AlertChannelType::Webhook => Doc::object().with(
            "event"@,
            Doc::Text("NETWORK_PARTITION_DETECTED"@),
        ).with("severity"@, Doc::Text("CRITICAL"@)).with("details"@, partition_doc(p, health)).with(
            "recommendation"@,
            recommendation_doc(rec),
        ).with("timestamp"@, Doc::Text(now.text())),
        AlertChannelType::PagerDuty => Doc::object().with(
            "routing_key"@,
            Doc::Text(
                match channel.routing_key {
                    Some(k) => k@,
                    None => Seq::empty(),
                },
            ),
        ).with("event_action"@, Doc::Text("trigger"@)).with(
            "payload"@,
            Doc::object().with(
                "summary"@,
                Doc::Text(
                    "Stellar Network Partition: "@ + decimal(p.missed_ledger_closes as int)
                        + " missed closes"@,
                ),
            ).with("severity"@, Doc::Text("critical"@)).with(
                "source"@,
                Doc::Text("stellar-k8s-operator"@),
            ),
        ),
        AlertChannelType::OpsGenie => Doc::object().with("message"@, Doc::Text(title)).with(
            "priority"@,
            Doc::Text("P1"@),
        ).with("description"@, Doc::Text(message)),
    }
}

/// What is sent to a channel to tell of a partition.
pub fn alert_payload(
    channel: &AlertChannelConfig,
    incident_title: &str,
    partition: &PartitionDetails,
    rec: &QuorumAdjustmentRecommendation,
    health: &str,
    now: Timestamp,
) -> (r: Json)
    ensures
        r@ == alert_doc(*channel, incident_title@, *partition, *rec, health@, now),
{
    match channel.channel_type {
        AlertChannelType::Slack => Json::object().with(
            "text",
            Json::text(&alert_message(incident_title, partition, rec)),
        ).with("username", Json::text("Stellar-K8s Partition Monitor")).with(
            "icon_emoji",
            Json::text(":rotating_light:"),
        ),
        AlertChannelType::Webhook => Json::object().with(
            "event",
            Json::text("NETWORK_PARTITION_DETECTED"),
        ).with("severity", Json::text("CRITICAL")).with(
            "details",
            partition_json(partition, health),
        ).with("recommendation", recommendation_json(rec)).with(
            "timestamp",
            Json::text(&now.to_rfc3339()),
        ),
        AlertChannelType::PagerDuty => {
            let key = match &channel.routing_key {
                Some(k) => k.clone(),
                None => String::new(),
            };
            let summary = cat3(
                "Stellar Network Partition: ",
                &decimal_text(partition.missed_ledger_closes as u64),
                " missed closes",
            );
            Json::object().with("routing_key", Json::text(&key)).with(
                "event_action",
                Json::text("trigger"),
            ).with(
                "payload",
                Json::object().with("summary", Json::text(&summary)).with(
                    "severity",
                    Json::text("critical"),
                ).with("source", Json::text("stellar-k8s-operator")),
            )
        },
        AlertChannelType::OpsGenie => Json::object().with(
            "message",
            Json::text(incident_title),
        ).with("priority", Json::text("P1")).with(
            "description",
            Json::text(&alert_message(incident_title, partition, rec)),
        ),
    }
}

/// What a channel replied: a status, and whether it is one of success, or why
/// there is none.
pub enum ChannelReply {
    Status { success: bool, status: String },
    Error(String),
}

/// What came of an alert, from what the channel replied.
pub fn dispatch_result(
    channel: &AlertChannelConfig,
    reply: ChannelReply,
    latency_ms: u64,
    now: Timestamp,
) -> (r: AlertDispatchResult)
    ensures
        r.channel_name@ == channel.name@,
        r.dispatched_at == now,
        r.latency_ms == latency_ms,
        r.response_message is Some,
        (match reply {
            ChannelReply::Status { success, status } => r.success == success
                && r.response_message->0@ == "HTTP "@ + status@,
            ChannelReply::Error(e) => !r.success && r.response_message->0@ == e@,
        }),
{
    let (success, message) = match reply {
        ChannelReply::Status { success, status } => (success, cat2("HTTP ", &status)),
        ChannelReply::Error(e) => (false, e),
    };
    AlertDispatchResult {
        channel_name: channel.name.clone(),
        dispatched_at: now,
        success,
        latency_ms,
        response_message: Some(message),
    }
}

/// An entry of a timeline.
#[verifier::ext_equal]
pub ghost struct Moment {
    pub at: int,
    pub stage: Seq<char>,
    pub message: Seq<char>,
    pub metadata: Option<Doc>,
}

/// What an entry of a timeline says.
pub open spec fn moment(e: IncidentTimelineEntry) -> Moment {
    Moment {
        at: e.timestamp.instant(),
        stage: e.stage@,
        message: e.message@,
        metadata: match e.metadata {
            Some(d) => Some(d@),
            None => None,
        },
    }
}

/// What a timeline says.
pub open spec fn moments(v: Seq<IncidentTimelineEntry>) -> Seq<Moment> {
    Seq::new(v.len(), |i: int| moment(v[i]))
}

/// The timeline of a partition that was declared at an instant.
pub open spec fn partition_timeline(
    now: int,
    stall: int,
    missed: int,
    channels: int,
    threshold: int,
) -> Seq<Moment> {
    seq![
        Moment {
            at: earlier(now, 15),
            stage: "Detection"@,
            message: "First missed ledger close detected; monitored consensus latency spiked"@,
            metadata: None,
        },
        Moment {
            at: earlier(now, 10),
            stage: "Detection"@,
            message: "Second consecutive missed close; peer ping failed to 2 quorum members"@,
            metadata: None,
        },
        Moment {
            at: earlier(now, 1),
            stage: "Escalation"@,
            message: "Third missed close reached ("@ + decimal(stall)
                + "s stall). Network partition officially declared."@,
            metadata: Some(Doc::object().with("missed_closes"@, Doc::Number(decimal(missed)))),
        },
        Moment {
            at: now,
            stage: "Alerting"@,
            message: "Automated emergency alert dispatched to "@ + decimal(channels)
                + " channels within 30s SLA."@,
            metadata: None,
        },
        Moment {
            at: now,
            stage: "Mitigation"@,
            message: "Generated quorum adjustment recommendation (threshold: "@ + decimal(threshold)
                + ")."@,
            metadata: Some(
                Doc::object().with("suggested_threshold"@, Doc::Number(decimal(threshold))),
            ),
        },
    ]
}

fn timeline_entry(timestamp: Timestamp, stage: &str, message: String, metadata: Option<Json>) -> (r:
    IncidentTimelineEntry)
    ensures
        moment(r) == (Moment {
            at: timestamp.instant(),
            stage: stage@,
            message: message@,
            metadata: match metadata {
                Some(d) => Some(d@),
                None => None,
            },
        }),
{
    IncidentTimelineEntry { timestamp, stage: stage.to_string(), message, metadata }
}

/// The name of an incident.
pub open spec fn incident_name_text(now: Timestamp) -> Seq<char> {
    "incident-partition-"@ + signed_decimal(now.seconds())
}

/// The title of an incident.
pub open spec fn incident_title_text(validator: Seq<char>) -> Seq<char> {
    "Network partition detected on validator "@ + validator
}

/// The title of an incident of a validator.
pub fn incident_title(validator_name: &str) -> (r: String)
    ensures
        r@ == incident_title_text(validator_name@),
{
    cat2("Network partition detected on validator ", validator_name)
}

/// An incident that is to be entered in the cluster.
pub struct DeclaredIncident {
    pub name: String,
    pub labels: StrMap<String>,
    pub spec: IncidentSpec,
    pub status: IncidentStatus,
}

/// Declares a partition, after the alerts were sent.
pub fn declare_partition_incident(
    validator_name: &str,
    partition: PartitionDetails,
    recommendation: QuorumAdjustmentRecommendation,
    alert_channels: Vec<AlertChannelConfig>,
    alert_dispatches: Vec<AlertDispatchResult>,
    now: Timestamp,
) -> (r: DeclaredIncident)
    ensures
        r.name@ == incident_name_text(now),
        r.labels.texts() == with_entry(
            with_entry(Seq::empty(), "incident.stellar.org/type"@, "NetworkPartition"@),
            "incident.stellar.org/validator"@,
            validator_name@,
        ),
        r.spec.title@ == incident_title_text(validator_name@),
        r.spec.incident_type == IncidentType::NetworkPartition,
        r.spec.severity == IncidentSeverity::Critical,
        views(r.spec.affected_nodes@) == seq![validator_name@],
        r.spec.alert_channels == alert_channels,
        !r.spec.auto_remediation_enabled,
        r.status.phase == IncidentPhase::Escalated,
        r.status.detected_at == now,
        r.status.resolved_at is None,
        r.status.partition_details == Some(partition),
        r.status.quorum_adjustment_recommendation == Some(recommendation),
        moments(r.status.timeline@) == partition_timeline(
            now.instant(),
            partition.stall_duration_secs as int,
            partition.missed_ledger_closes as int,
            alert_channels@.len() as int,
            recommendation.new_threshold as int,
        ),
        r.status.alert_dispatches == alert_dispatches,
{
    let mut timeline: Vec<IncidentTimelineEntry> = Vec::new();
    timeline.push(
        timeline_entry(
            now.minus(15),
            "Detection",
            "First missed ledger close detected; monitored consensus latency spiked".to_string(),
            None,
        ),
    );
    timeline.push(
        timeline_entry(
            now.minus(10),
            "Detection",
            "Second consecutive missed close; peer ping failed to 2 quorum members".to_string(),
            None,
        ),
    );
    timeline.push(
        timeline_entry(
            now.minus(1),
            "Escalation",
            cat3(
                "Third missed close reached (",
                &decimal_text(partition.stall_duration_secs),
                "s stall). Network partition officially declared.",
            ),
            Some(
                Json::object().with(
                    "missed_closes",
                    Json::Number(decimal_text(partition.missed_ledger_closes as u64)),
                ),
            ),
        ),
    );
    timeline.push(
        timeline_entry(
            now,
            "Alerting",
            cat3(
                "Automated emergency alert dispatched to ",
                &decimal_text(alert_channels.len() as u64),
                " channels within 30s SLA.",
            ),
            None,
        ),
    );
    timeline.push(
        timeline_entry(
            now,
            "Mitigation",
            cat3(
                "Generated quorum adjustment recommendation (threshold: ",
                &decimal_text(recommendation.new_threshold as u64),
                ").",
            ),
            Some(
                Json::object().with(
                    "suggested_threshold",
                    Json::Number(decimal_text(recommendation.new_threshold as u64)),
                ),
            ),
        ),
    );
    assert(moments(timeline@) =~= partition_timeline(
        now.instant(),
        partition.stall_duration_secs as int,
        partition.missed_ledger_closes as int,
        alert_channels@.len() as int,
        recommendation.new_threshold as int,
    ));
    let mut labels: StrMap<String> = StrMap::new();
    assert(labels.texts() =~= Seq::<(Seq<char>, Seq<char>)>::empty());
    labels.put("incident.stellar.org/type", "NetworkPartition");
    labels.put("incident.stellar.org/validator", validator_name);
    let mut affected_nodes: Vec<String> = Vec::new();
    affected_nodes.push(validator_name.to_string());
    assert(views(affected_nodes@) =~= seq![validator_name@]);
    DeclaredIncident {
        name: cat2("incident-partition-", &signed_decimal_text(now.timestamp())),
        labels,
        spec: IncidentSpec {
            title: incident_title(validator_name),
            incident_type: IncidentType::NetworkPartition,
            severity: IncidentSeverity::Critical,
            affected_nodes,
            alert_channels,
            auto_remediation_enabled: false,
        },
        status: IncidentStatus {
            phase: IncidentPhase::Escalated,
            detected_at: now,
            resolved_at: None,
            partition_details: Some(partition),
            quorum_adjustment_recommendation: Some(recommendation),
            timeline,
            alert_dispatches,
        },
    }
}

/// The closes that were missed are the whole close times that have passed.
pub proof fn law_missed_closes_fill_the_time(elapsed: int, close_time: int)
    requires
        close_time > 0,
        0 <= elapsed < close_time * 0x1_0000_0000,
    ensures
        missed_closes(elapsed, close_time) * close_time <= elapsed < (missed_closes(
            elapsed,
            close_time,
        ) + 1) * close_time,
{
    let q = elapsed / close_time;
    assert(q * close_time <= elapsed < (q + 1) * close_time && 0 <= q < 0x1_0000_0000)
        by (nonlinear_arith)
        requires
            close_time > 0,
            0 <= elapsed < close_time * 0x1_0000_0000,
            q == elapsed / close_time,
    ;
}

/// A stall is as long as the whole seconds since the last ledger, and none where
/// that is still to come.
pub proof fn law_stall_is_the_time_since_the_last_ledger(last: int, now: int)
    ensures
        stalled_for(last, now) >= 0,
        now >= last ==> stalled_for(last, now) * 1_000_000_000 <= now - last < (stalled_for(
            last,
            now,
        ) + 1) * 1_000_000_000,
        now <= last ==> stalled_for(last, now) == 0,
{
    law_whole_units(now - last, 1_000_000_000);
}

/// Two thirds of those that can be reached, rounded up, are asked for.
pub proof fn law_threshold_is_two_thirds(reachable: int)
    requires
        reachable >= 1,
    ensures
        3 * quorum_threshold(reachable) >= 2 * reachable,
        3 * (quorum_threshold(reachable) - 1) < 2 * reachable,
{
}

/// What a partition is told with: each number and each peer stands under its
/// name.
pub proof fn law_partition_is_told(p: PartitionDetails, health: Seq<char>)
    ensures
        ({
            let d = partition_doc(p, health);
            &&& d.member("missedLedgerCloses"@) == Some(
                Doc::Number(decimal(p.missed_ledger_closes as int)),
            )
            &&& d.member("expectedCloseTimeSecs"@) == Some(
                Doc::Number(decimal(p.expected_close_time_secs as int)),
            )
            &&& d.member("lastClosedLedger"@) == Some(
                Doc::Number(decimal(p.last_closed_ledger as int)),
            )
            &&& d.member("stallDurationSecs"@) == Some(
                Doc::Number(decimal(p.stall_duration_secs as int)),
            )
            &&& d.member("unreachablePeers"@) == Some(Doc::texts(views(p.unreachable_peers@)))
            &&& d.member("reachablePeers"@) == Some(Doc::texts(views(p.reachable_peers@)))
            &&& d.member("quorumHealthPct"@) == Some(Doc::Number(health))
        }),
{
    broadcast use group_members;

    reveal_strlit("missedLedgerCloses");
    reveal_strlit("expectedCloseTimeSecs");
    reveal_strlit("lastClosedLedger");
    reveal_strlit("stallDurationSecs");
    reveal_strlit("unreachablePeers");
    reveal_strlit("reachablePeers");
    reveal_strlit("quorumHealthPct");
    assert("lastClosedLedger"@[0] == 'l');
    assert("unreachablePeers"@[0] == 'u');
}

/// Every channel is sent what it understands: a message, the details, an event
/// to page with, or an alert.
pub proof fn law_channel_is_sent_its_alert(
    channel: AlertChannelConfig,
    title: Seq<char>,
    p: PartitionDetails,
    rec: QuorumAdjustmentRecommendation,
    health: Seq<char>,
    now: Timestamp,
)
    ensures
        ({
            let d = alert_doc(channel, title, p, rec, health, now);
            let message = Some(Doc::Text(alert_text(title, p, rec)));
            match channel.channel_type {
                AlertChannelType::Slack => d.member("text"@) == message,
                AlertChannelType::Webhook => d.member("details"@) == Some(partition_doc(p, health))
                    && d.member("recommendation"@) == Some(recommendation_doc(rec))
                    && d.member("severity"@) == Some(Doc::Text("CRITICAL"@)) && d.member(
                    "timestamp"@,
                ) == Some(Doc::Text(now.text())),
                AlertChannelType::PagerDuty => (channel.routing_key is Some ==> d.member(
                    "routing_key"@,
                ) == Some(Doc::Text(channel.routing_key->0@))) && d.member("event_action"@) == Some(
                    Doc::Text("trigger"@),
                ) && at2(d, "payload"@, "severity"@) == Some(Doc::Text("critical"@)),
                AlertChannelType::OpsGenie => d.member("message"@) == Some(Doc::Text(title))
                    && d.member("description"@) == message && d.member("priority"@) == Some(
                    Doc::Text("P1"@),
                ),
            }
        }),
{
    broadcast use group_members;

    reveal_strlit("text");
    reveal_strlit("username");
    reveal_strlit("icon_emoji");
    reveal_strlit("event");
    reveal_strlit("severity");
    reveal_strlit("details");
    reveal_strlit("recommendation");
    reveal_strlit("timestamp");
    reveal_strlit("routing_key");
    reveal_strlit("event_action");
    reveal_strlit("payload");
    reveal_strlit("summary");
    reveal_strlit("source");
    reveal_strlit("message");
    reveal_strlit("priority");
    reveal_strlit("description");
    assert("username"@[0] == 'u');
    assert("severity"@[0] == 's');
    assert("details"@[0] == 'd');
    assert("payload"@[0] == 'p');
    assert("summary"@[0] == 's');
    assert("message"@[0] == 'm');
    assert("priority"@[0] == 'p');
    assert("routing_key"@[0] == 'r');
    assert("description"@[0] == 'd');
}

/// What is recommended stands under its name.
pub proof fn law_recommendation_is_told(rec: QuorumAdjustmentRecommendation)
    ensures
        recommendation_doc(rec).member("suggestedQuorumSet"@) == Some(
            Doc::texts(views(rec.suggested_quorum_set@)),
        ),
        recommendation_doc(rec).member("newThreshold"@) == Some(
            Doc::Number(decimal(rec.new_threshold as int)),
        ),
        recommendation_doc(rec).member("rationale"@) == Some(Doc::Text(rec.rationale@)),
        recommendation_doc(rec).member("actionPlan"@) == Some(Doc::texts(views(rec.action_plan@))),
{
    broadcast use group_members;

    reveal_strlit("suggestedQuorumSet");
    reveal_strlit("newThreshold");
    reveal_strlit("rationale");
    reveal_strlit("actionPlan");
}

/// The timeline of a partition runs forward and ends now.
pub proof fn law_timeline_runs_forward(
    now: int,
    stall: int,
    missed: int,
    channels: int,
    threshold: int,
)
    requires
        now >= FIRST_SECOND * 1_000_000_000,
    ensures
        ({
            let t = partition_timeline(now, stall, missed, channels, threshold);
            &&& forall|i: int, j: int| 0 <= i <= j < t.len() ==> (#[trigger] t[i]).at <= (
            #[trigger] t[j]).at
            &&& t.last().at == now
            &&& t[2].metadata is Some && t[2].metadata->0.member("missed_closes"@) == Some(
                Doc::Number(decimal(missed)),
            )
            &&& t[4].metadata is Some && t[4].metadata->0.member("suggested_threshold"@) == Some(
                Doc::Number(decimal(threshold)),
            )
        }),
{
    broadcast use group_members;

}

/// The more validators can be reached, the more have to agree; one has to in any
/// case.
pub proof fn law_threshold_grows_with_the_reachable(fewer: int, more: int)
    requires
        fewer <= more,
    ensures
        1 <= quorum_threshold(fewer) <= quorum_threshold(more),
        more <= 1 ==> quorum_threshold(more) == 1,
{
}

} // verus!
