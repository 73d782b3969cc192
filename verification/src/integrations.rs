//! The integrations overview: storage, notifications and credential distribution, each
//! summarized by counts and a state read from them.
use vstd::prelude::*;

verus! {

#[derive(Debug, Clone, Copy)]
pub struct StorageSummary {
    pub items_total: i64,
    pub in_use_total: i64,
    pub invalid_total: i64,
}

#[derive(Debug, Clone, Copy)]
pub struct NotificationsSummary {
    pub destinations_total: i64,
    pub recent_failures_total: i64,
    pub queue_backlog_total: i64,
}

#[derive(Debug, Clone, Copy)]
pub struct DistributionSummary {
    pub coverage_total: i64,
    pub drifted_total: i64,
    pub failed_total: i64,
}

/// Nothing stored or used is "empty"; any invalid use is "degraded"; else "ready".
pub open spec fn storage_state_spec(s: StorageSummary) -> Seq<char> {
    if s.items_total == 0 && s.in_use_total == 0 {
        "empty"@
    } else if s.invalid_total > 0 {
        "degraded"@
    } else {
        "ready"@
    }
}

pub fn classify_storage_state(summary: &StorageSummary) -> (r: &'static str)
    ensures
        r@ == storage_state_spec(*summary),
{
    if summary.items_total == 0 && summary.in_use_total == 0 {
        "empty"
    } else if summary.invalid_total > 0 {
        "degraded"
    } else {
        "ready"
    }
}

/// No destinations, backlog or failures is "empty"; recent failures are "degraded"; else "ready".
pub open spec fn notifications_state_spec(s: NotificationsSummary) -> Seq<char> {
    if s.destinations_total == 0 && s.queue_backlog_total == 0 && s.recent_failures_total == 0 {
        "empty"@
    } else if s.recent_failures_total > 0 {
        "degraded"@
    } else {
        "ready"@
    }
}

pub fn classify_notifications_state(summary: &NotificationsSummary) -> (r: &'static str)
    ensures
        r@ == notifications_state_spec(*summary),
{
    if summary.destinations_total == 0 && summary.queue_backlog_total == 0 && summary.recent_failures_total == 0 {
        "empty"
    } else if summary.recent_failures_total > 0 {
        "degraded"
    } else {
        "ready"
    }
}

/// No coverage is "empty"; drift or failures are "degraded"; else "ready".
pub open spec fn distribution_state_spec(s: DistributionSummary) -> Seq<char> {
    if s.coverage_total == 0 {
        "empty"@
    } else if s.drifted_total > 0 || s.failed_total > 0 {
        "degraded"@
    } else {
        "ready"@
    }
}

pub fn classify_distribution_state(summary: &DistributionSummary) -> (r: &'static str)
    ensures
        r@ == distribution_state_spec(*summary),
{
    if summary.coverage_total == 0 {
        "empty"
    } else if summary.drifted_total > 0 || summary.failed_total > 0 {
        "degraded"
    } else {
        "ready"
    }
}

/// The overview of all three domains, each with its counts and state.
#[derive(Debug)]
pub struct IntegrationsSummary {
    pub storage: StorageSummary,
    pub storage_state: &'static str,
    pub notifications: NotificationsSummary,
    pub notifications_state: &'static str,
    pub distribution: DistributionSummary,
    pub distribution_state: &'static str,
}

/// Builds the overview from the counts that could be loaded; a domain whose counts failed to
/// load shows zeros (and so reads as empty).
pub fn integrations_summary(
    storage: Option<StorageSummary>,
    notifications: Option<NotificationsSummary>,
    distribution: Option<DistributionSummary>,
) -> (r: IntegrationsSummary)
    ensures
        r.storage == (match storage {
            Some(s) => s,
            None => StorageSummary { items_total: 0, in_use_total: 0, invalid_total: 0 },
        }),
        r.notifications == (match notifications {
            Some(n) => n,
            None => NotificationsSummary { destinations_total: 0, recent_failures_total: 0, queue_backlog_total: 0 },
        }),
        r.distribution == (match distribution {
            Some(d) => d,
            None => DistributionSummary { coverage_total: 0, drifted_total: 0, failed_total: 0 },
        }),
        r.storage_state@ == storage_state_spec(r.storage),
        r.notifications_state@ == notifications_state_spec(r.notifications),
        r.distribution_state@ == distribution_state_spec(r.distribution),
{
    let st = match storage {
        Some(s) => s,
        None => StorageSummary { items_total: 0, in_use_total: 0, invalid_total: 0 },
    };
    let no = match notifications {
        Some(n) => n,
        None => NotificationsSummary { destinations_total: 0, recent_failures_total: 0, queue_backlog_total: 0 },
    };
    let di = match distribution {
        Some(d) => d,
        None => DistributionSummary { coverage_total: 0, drifted_total: 0, failed_total: 0 },
    };
    let storage_state = classify_storage_state(&st);
    let notifications_state = classify_notifications_state(&no);
    let distribution_state = classify_distribution_state(&di);
    IntegrationsSummary {
        storage: st,
        storage_state,
        notifications: no,
        notifications_state,
        distribution: di,
        distribution_state,
    }
}

} // verus!
