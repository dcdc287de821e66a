//! What the text summaries show: each number in them is the decimal
//! notation of its field (divided by 1000 in the microsecond renderings),
//! right after the field's label and right before its unit.

use vstd::prelude::*;

verus! {

use crate::histogram::Percentiles;
use crate::render::{decimal, lemma_shows, shows};
use crate::LatencyStats;

/// Every number in the microsecond rendering is its field divided by 1000:
/// after `p50=` stands the decimal notation of `p50 / 1000`, then `μs`, and
/// likewise for p90, p99, p999 and p9999.
#[verifier::spinoff_prover]
#[verifier::rlimit(60)]
pub proof fn lemma_percentiles_format_micros_shows_fields(p: Percentiles)
    ensures
        shows(p.format_micros_spec(), "p50="@, p.p50 as nat / 1000, "μs"@),
        shows(p.format_micros_spec(), "p90="@, p.p90 as nat / 1000, "μs"@),
        shows(p.format_micros_spec(), "p99="@, p.p99 as nat / 1000, "μs"@),
        shows(p.format_micros_spec(), "p999="@, p.p999 as nat / 1000, "μs"@),
        shows(p.format_micros_spec(), "p9999="@, p.p9999 as nat / 1000, "μs"@),
{
    assert(shows(p.format_micros_spec(), "p50="@, p.p50 as nat / 1000, "μs"@)) by {
        reveal_strlit(" p90=");
        reveal_strlit("p50=");
        reveal_strlit("μs");
        reveal_strlit("μs p90=");
        assert("μs p90="@ =~= "μs"@ + " p90="@);
        let before = Seq::<char>::empty();
        let after = " p90="@ + decimal(p.p90 as nat / 1000) + "μs p99="@ + decimal(p.p99 as nat / 1000) + "μs p999="@ + decimal(p.p999 as nat / 1000) + "μs p9999="@ + decimal(p.p9999 as nat / 1000) + "μs"@;
        assert(p.format_micros_spec() =~= before + "p50="@ + decimal(p.p50 as nat / 1000) + "μs"@ + after);
        lemma_shows(before, "p50="@, p.p50 as nat / 1000, "μs"@, after);
    }
    assert(shows(p.format_micros_spec(), "p90="@, p.p90 as nat / 1000, "μs"@)) by {
        reveal_strlit(" p99=");
        reveal_strlit("p90=");
        reveal_strlit("μs");
        reveal_strlit("μs ");
        reveal_strlit("μs p90=");
        reveal_strlit("μs p99=");
        assert("μs p90="@ =~= "μs "@ + "p90="@);
        assert("μs p99="@ =~= "μs"@ + " p99="@);
        let before = "p50="@ + decimal(p.p50 as nat / 1000) + "μs "@;
        let after = " p99="@ + decimal(p.p99 as nat / 1000) + "μs p999="@ + decimal(p.p999 as nat / 1000) + "μs p9999="@ + decimal(p.p9999 as nat / 1000) + "μs"@;
        assert(p.format_micros_spec() =~= before + "p90="@ + decimal(p.p90 as nat / 1000) + "μs"@ + after);
        lemma_shows(before, "p90="@, p.p90 as nat / 1000, "μs"@, after);
    }
    assert(shows(p.format_micros_spec(), "p99="@, p.p99 as nat / 1000, "μs"@)) by {
        reveal_strlit(" p999=");
        reveal_strlit("p99=");
        reveal_strlit("μs");
        reveal_strlit("μs ");
        reveal_strlit("μs p999=");
        reveal_strlit("μs p99=");
        assert("μs p99="@ =~= "μs "@ + "p99="@);
        assert("μs p999="@ =~= "μs"@ + " p999="@);
        let before = "p50="@ + decimal(p.p50 as nat / 1000) + "μs p90="@ + decimal(p.p90 as nat / 1000) + "μs "@;
        let after = " p999="@ + decimal(p.p999 as nat / 1000) + "μs p9999="@ + decimal(p.p9999 as nat / 1000) + "μs"@;
        assert(p.format_micros_spec() =~= before + "p99="@ + decimal(p.p99 as nat / 1000) + "μs"@ + after);
        lemma_shows(before, "p99="@, p.p99 as nat / 1000, "μs"@, after);
    }
    assert(shows(p.format_micros_spec(), "p999="@, p.p999 as nat / 1000, "μs"@)) by {
        reveal_strlit(" p9999=");
        reveal_strlit("p999=");
        reveal_strlit("μs");
        reveal_strlit("μs ");
        reveal_strlit("μs p9999=");
        reveal_strlit("μs p999=");
        assert("μs p999="@ =~= "μs "@ + "p999="@);
        assert("μs p9999="@ =~= "μs"@ + " p9999="@);
        let before = "p50="@ + decimal(p.p50 as nat / 1000) + "μs p90="@ + decimal(p.p90 as nat / 1000) + "μs p99="@ + decimal(p.p99 as nat / 1000) + "μs "@;
        let after = " p9999="@ + decimal(p.p9999 as nat / 1000) + "μs"@;
        assert(p.format_micros_spec() =~= before + "p999="@ + decimal(p.p999 as nat / 1000) + "μs"@ + after);
        lemma_shows(before, "p999="@, p.p999 as nat / 1000, "μs"@, after);
    }
    assert(shows(p.format_micros_spec(), "p9999="@, p.p9999 as nat / 1000, "μs"@)) by {
        reveal_strlit("p9999=");
        reveal_strlit("μs");
        reveal_strlit("μs ");
        reveal_strlit("μs p9999=");
        assert("μs p9999="@ =~= "μs "@ + "p9999="@);
        let before = "p50="@ + decimal(p.p50 as nat / 1000) + "μs p90="@ + decimal(p.p90 as nat / 1000) + "μs p99="@ + decimal(p.p99 as nat / 1000) + "μs p999="@ + decimal(p.p999 as nat / 1000) + "μs "@;
        let after = Seq::<char>::empty();
        assert(p.format_micros_spec() =~= before + "p9999="@ + decimal(p.p9999 as nat / 1000) + "μs"@ + after);
        lemma_shows(before, "p9999="@, p.p9999 as nat / 1000, "μs"@, after);
    }
}

/// Every number in the nanosecond rendering is its field: after `p50=`
/// stands the decimal notation of `p50`, then `ns`, and likewise for p90,
/// p99, p999 and p9999.
#[verifier::spinoff_prover]
#[verifier::rlimit(60)]
pub proof fn lemma_percentiles_format_shows_fields(p: Percentiles)
    ensures
        shows(p.format_spec(), "p50="@, p.p50 as nat, "ns"@),
        shows(p.format_spec(), "p90="@, p.p90 as nat, "ns"@),
        shows(p.format_spec(), "p99="@, p.p99 as nat, "ns"@),
        shows(p.format_spec(), "p999="@, p.p999 as nat, "ns"@),
        shows(p.format_spec(), "p9999="@, p.p9999 as nat, "ns"@),
{
    assert(shows(p.format_spec(), "p50="@, p.p50 as nat, "ns"@)) by {
        reveal_strlit(" p90=");
        reveal_strlit("ns");
        reveal_strlit("ns p90=");
        reveal_strlit("p50=");
        assert("ns p90="@ =~= "ns"@ + " p90="@);
        let before = Seq::<char>::empty();
        let after = " p90="@ + decimal(p.p90 as nat) + "ns p99="@ + decimal(p.p99 as nat) + "ns p999="@ + decimal(p.p999 as nat) + "ns p9999="@ + decimal(p.p9999 as nat) + "ns"@;
        assert(p.format_spec() =~= before + "p50="@ + decimal(p.p50 as nat) + "ns"@ + after);
        lemma_shows(before, "p50="@, p.p50 as nat, "ns"@, after);
    }
    assert(shows(p.format_spec(), "p90="@, p.p90 as nat, "ns"@)) by {
        reveal_strlit(" p99=");
        reveal_strlit("ns");
        reveal_strlit("ns ");
        reveal_strlit("ns p90=");
        reveal_strlit("ns p99=");
        reveal_strlit("p90=");
        assert("ns p90="@ =~= "ns "@ + "p90="@);
        assert("ns p99="@ =~= "ns"@ + " p99="@);
        let before = "p50="@ + decimal(p.p50 as nat) + "ns "@;
        let after = " p99="@ + decimal(p.p99 as nat) + "ns p999="@ + decimal(p.p999 as nat) + "ns p9999="@ + decimal(p.p9999 as nat) + "ns"@;
        assert(p.format_spec() =~= before + "p90="@ + decimal(p.p90 as nat) + "ns"@ + after);
        lemma_shows(before, "p90="@, p.p90 as nat, "ns"@, after);
    }
    assert(shows(p.format_spec(), "p99="@, p.p99 as nat, "ns"@)) by {
        reveal_strlit(" p999=");
        reveal_strlit("ns");
        reveal_strlit("ns ");
        reveal_strlit("ns p999=");
        reveal_strlit("ns p99=");
        reveal_strlit("p99=");
        assert("ns p99="@ =~= "ns "@ + "p99="@);
        assert("ns p999="@ =~= "ns"@ + " p999="@);
        let before = "p50="@ + decimal(p.p50 as nat) + "ns p90="@ + decimal(p.p90 as nat) + "ns "@;
        let after = " p999="@ + decimal(p.p999 as nat) + "ns p9999="@ + decimal(p.p9999 as nat) + "ns"@;
        assert(p.format_spec() =~= before + "p99="@ + decimal(p.p99 as nat) + "ns"@ + after);
        lemma_shows(before, "p99="@, p.p99 as nat, "ns"@, after);
    }
    assert(shows(p.format_spec(), "p999="@, p.p999 as nat, "ns"@)) by {
        reveal_strlit(" p9999=");
        reveal_strlit("ns");
        reveal_strlit("ns ");
        reveal_strlit("ns p9999=");
        reveal_strlit("ns p999=");
        reveal_strlit("p999=");
        assert("ns p999="@ =~= "ns "@ + "p999="@);
        assert("ns p9999="@ =~= "ns"@ + " p9999="@);
        let before = "p50="@ + decimal(p.p50 as nat) + "ns p90="@ + decimal(p.p90 as nat) + "ns p99="@ + decimal(p.p99 as nat) + "ns "@;
        let after = " p9999="@ + decimal(p.p9999 as nat) + "ns"@;
        assert(p.format_spec() =~= before + "p999="@ + decimal(p.p999 as nat) + "ns"@ + after);
        lemma_shows(before, "p999="@, p.p999 as nat, "ns"@, after);
    }
    assert(shows(p.format_spec(), "p9999="@, p.p9999 as nat, "ns"@)) by {
        reveal_strlit("ns");
        reveal_strlit("ns ");
        reveal_strlit("ns p9999=");
        reveal_strlit("p9999=");
        assert("ns p9999="@ =~= "ns "@ + "p9999="@);
        let before = "p50="@ + decimal(p.p50 as nat) + "ns p90="@ + decimal(p.p90 as nat) + "ns p99="@ + decimal(p.p99 as nat) + "ns p999="@ + decimal(p.p999 as nat) + "ns "@;
        let after = Seq::<char>::empty();
        assert(p.format_spec() =~= before + "p9999="@ + decimal(p.p9999 as nat) + "ns"@ + after);
        lemma_shows(before, "p9999="@, p.p9999 as nat, "ns"@, after);
    }
}

/// Percentiles that agree in whole microseconds render identically in
/// microseconds: the rendering reads each field only through `field / 1000`.
pub proof fn lemma_percentiles_format_micros_whole(p: Percentiles, q: Percentiles)
    requires
        p.p50 / 1000 == q.p50 / 1000,
        p.p90 / 1000 == q.p90 / 1000,
        p.p99 / 1000 == q.p99 / 1000,
        p.p999 / 1000 == q.p999 / 1000,
        p.p9999 / 1000 == q.p9999 / 1000,
    ensures
        p.format_micros_spec() == q.format_micros_spec(),
{
}

/// Every number in the nanosecond rendering is its field: after `count=`
/// stands the decimal notation of the count, after `min=` that of the
/// minimum followed by `ns`, and likewise for p50, p99, p999 and max.
#[verifier::spinoff_prover]
#[verifier::rlimit(60)]
pub proof fn lemma_stats_format_shows_fields(st: LatencyStats)
    ensures
        shows(st.format_spec(), "count="@, st.count as nat, " "@),
        shows(st.format_spec(), "min="@, st.min as nat, "ns"@),
        shows(st.format_spec(), "p50="@, st.p50 as nat, "ns"@),
        shows(st.format_spec(), "p99="@, st.p99 as nat, "ns"@),
        shows(st.format_spec(), "p999="@, st.p999 as nat, "ns"@),
        shows(st.format_spec(), "max="@, st.max as nat, "ns"@),
{
    assert(shows(st.format_spec(), "count="@, st.count as nat, " "@)) by {
        reveal_strlit(" ");
        reveal_strlit(" min=");
        reveal_strlit("count=");
        reveal_strlit("min=");
        assert(" min="@ =~= " "@ + "min="@);
        let before = Seq::<char>::empty();
        let after = "min="@ + decimal(st.min as nat) + "ns p50="@ + decimal(st.p50 as nat) + "ns p99="@ + decimal(st.p99 as nat) + "ns p999="@ + decimal(st.p999 as nat) + "ns max="@ + decimal(st.max as nat) + "ns"@;
        assert(st.format_spec() =~= before + "count="@ + decimal(st.count as nat) + " "@ + after);
        lemma_shows(before, "count="@, st.count as nat, " "@, after);
    }
    assert(shows(st.format_spec(), "min="@, st.min as nat, "ns"@)) by {
        reveal_strlit(" ");
        reveal_strlit(" min=");
        reveal_strlit(" p50=");
        reveal_strlit("min=");
        reveal_strlit("ns");
        reveal_strlit("ns p50=");
        assert(" min="@ =~= " "@ + "min="@);
        assert("ns p50="@ =~= "ns"@ + " p50="@);
        let before = "count="@ + decimal(st.count as nat) + " "@;
        let after = " p50="@ + decimal(st.p50 as nat) + "ns p99="@ + decimal(st.p99 as nat) + "ns p999="@ + decimal(st.p999 as nat) + "ns max="@ + decimal(st.max as nat) + "ns"@;
        assert(st.format_spec() =~= before + "min="@ + decimal(st.min as nat) + "ns"@ + after);
        lemma_shows(before, "min="@, st.min as nat, "ns"@, after);
    }
    assert(shows(st.format_spec(), "p50="@, st.p50 as nat, "ns"@)) by {
        reveal_strlit(" p99=");
        reveal_strlit("ns");
        reveal_strlit("ns ");
        reveal_strlit("ns p50=");
        reveal_strlit("ns p99=");
        reveal_strlit("p50=");
        assert("ns p50="@ =~= "ns "@ + "p50="@);
        assert("ns p99="@ =~= "ns"@ + " p99="@);
        let before = "count="@ + decimal(st.count as nat) + " min="@ + decimal(st.min as nat) + "ns "@;
        let after = " p99="@ + decimal(st.p99 as nat) + "ns p999="@ + decimal(st.p999 as nat) + "ns max="@ + decimal(st.max as nat) + "ns"@;
        assert(st.format_spec() =~= before + "p50="@ + decimal(st.p50 as nat) + "ns"@ + after);
        lemma_shows(before, "p50="@, st.p50 as nat, "ns"@, after);
    }
    assert(shows(st.format_spec(), "p99="@, st.p99 as nat, "ns"@)) by {
        reveal_strlit(" p999=");
        reveal_strlit("ns");
        reveal_strlit("ns ");
        reveal_strlit("ns p999=");
        reveal_strlit("ns p99=");
        reveal_strlit("p99=");
        assert("ns p99="@ =~= "ns "@ + "p99="@);
        assert("ns p999="@ =~= "ns"@ + " p999="@);
        let before = "count="@ + decimal(st.count as nat) + " min="@ + decimal(st.min as nat) + "ns p50="@ + decimal(st.p50 as nat) + "ns "@;
        let after = " p999="@ + decimal(st.p999 as nat) + "ns max="@ + decimal(st.max as nat) + "ns"@;
        assert(st.format_spec() =~= before + "p99="@ + decimal(st.p99 as nat) + "ns"@ + after);
        lemma_shows(before, "p99="@, st.p99 as nat, "ns"@, after);
    }
    assert(shows(st.format_spec(), "p999="@, st.p999 as nat, "ns"@)) by {
        reveal_strlit(" max=");
        reveal_strlit("ns");
        reveal_strlit("ns ");
        reveal_strlit("ns max=");
        reveal_strlit("ns p999=");
        reveal_strlit("p999=");
        assert("ns p999="@ =~= "ns "@ + "p999="@);
        assert("ns max="@ =~= "ns"@ + " max="@);
        let before = "count="@ + decimal(st.count as nat) + " min="@ + decimal(st.min as nat) + "ns p50="@ + decimal(st.p50 as nat) + "ns p99="@ + decimal(st.p99 as nat) + "ns "@;
        let after = " max="@ + decimal(st.max as nat) + "ns"@;
        assert(st.format_spec() =~= before + "p999="@ + decimal(st.p999 as nat) + "ns"@ + after);
        lemma_shows(before, "p999="@, st.p999 as nat, "ns"@, after);
    }
    assert(shows(st.format_spec(), "max="@, st.max as nat, "ns"@)) by {
        reveal_strlit("max=");
        reveal_strlit("ns");
        reveal_strlit("ns ");
        reveal_strlit("ns max=");
        assert("ns max="@ =~= "ns "@ + "max="@);
        let before = "count="@ + decimal(st.count as nat) + " min="@ + decimal(st.min as nat) + "ns p50="@ + decimal(st.p50 as nat) + "ns p99="@ + decimal(st.p99 as nat) + "ns p999="@ + decimal(st.p999 as nat) + "ns "@;
        let after = Seq::<char>::empty();
        assert(st.format_spec() =~= before + "max="@ + decimal(st.max as nat) + "ns"@ + after);
        lemma_shows(before, "max="@, st.max as nat, "ns"@, after);
    }
}

/// Every duration in the microsecond rendering is its field divided by
/// 1000: after `min=` stands the decimal notation of `min / 1000`, then
/// `μs`, and likewise for p50, p99, p999 and max; the count stands as it is.
#[verifier::spinoff_prover]
#[verifier::rlimit(60)]
pub proof fn lemma_stats_format_micros_shows_fields(st: LatencyStats)
    ensures
        shows(st.format_micros_spec(), "count="@, st.count as nat, " "@),
        shows(st.format_micros_spec(), "min="@, st.min as nat / 1000, "μs"@),
        shows(st.format_micros_spec(), "p50="@, st.p50 as nat / 1000, "μs"@),
        shows(st.format_micros_spec(), "p99="@, st.p99 as nat / 1000, "μs"@),
        shows(st.format_micros_spec(), "p999="@, st.p999 as nat / 1000, "μs"@),
        shows(st.format_micros_spec(), "max="@, st.max as nat / 1000, "μs"@),
{
    assert(shows(st.format_micros_spec(), "count="@, st.count as nat, " "@)) by {
        reveal_strlit(" ");
        reveal_strlit(" min=");
        reveal_strlit("count=");
        reveal_strlit("min=");
        assert(" min="@ =~= " "@ + "min="@);
        let before = Seq::<char>::empty();
        let after = "min="@ + decimal(st.min as nat / 1000) + "μs p50="@ + decimal(st.p50 as nat / 1000) + "μs p99="@ + decimal(st.p99 as nat / 1000) + "μs p999="@ + decimal(st.p999 as nat / 1000) + "μs max="@ + decimal(st.max as nat / 1000) + "μs"@;
        assert(st.format_micros_spec() =~= before + "count="@ + decimal(st.count as nat) + " "@ + after);
        lemma_shows(before, "count="@, st.count as nat, " "@, after);
    }
    assert(shows(st.format_micros_spec(), "min="@, st.min as nat / 1000, "μs"@)) by {
        reveal_strlit(" ");
        reveal_strlit(" min=");
        reveal_strlit(" p50=");
        reveal_strlit("min=");
        reveal_strlit("μs");
        reveal_strlit("μs p50=");
        assert(" min="@ =~= " "@ + "min="@);
        assert("μs p50="@ =~= "μs"@ + " p50="@);
        let before = "count="@ + decimal(st.count as nat) + " "@;
        let after = " p50="@ + decimal(st.p50 as nat / 1000) + "μs p99="@ + decimal(st.p99 as nat / 1000) + "μs p999="@ + decimal(st.p999 as nat / 1000) + "μs max="@ + decimal(st.max as nat / 1000) + "μs"@;
        assert(st.format_micros_spec() =~= before + "min="@ + decimal(st.min as nat / 1000) + "μs"@ + after);
        lemma_shows(before, "min="@, st.min as nat / 1000, "μs"@, after);
    }
    assert(shows(st.format_micros_spec(), "p50="@, st.p50 as nat / 1000, "μs"@)) by {
        reveal_strlit(" p99=");
        reveal_strlit("p50=");
        reveal_strlit("μs");
        reveal_strlit("μs ");
        reveal_strlit("μs p50=");
        reveal_strlit("μs p99=");
        assert("μs p50="@ =~= "μs "@ + "p50="@);
        assert("μs p99="@ =~= "μs"@ + " p99="@);
        let before = "count="@ + decimal(st.count as nat) + " min="@ + decimal(st.min as nat / 1000) + "μs "@;
        let after = " p99="@ + decimal(st.p99 as nat / 1000) + "μs p999="@ + decimal(st.p999 as nat / 1000) + "μs max="@ + decimal(st.max as nat / 1000) + "μs"@;
        assert(st.format_micros_spec() =~= before + "p50="@ + decimal(st.p50 as nat / 1000) + "μs"@ + after);
        lemma_shows(before, "p50="@, st.p50 as nat / 1000, "μs"@, after);
    }
    assert(shows(st.format_micros_spec(), "p99="@, st.p99 as nat / 1000, "μs"@)) by {
        reveal_strlit(" p999=");
        reveal_strlit("p99=");
        reveal_strlit("μs");
        reveal_strlit("μs ");
        reveal_strlit("μs p999=");
        reveal_strlit("μs p99=");
        assert("μs p99="@ =~= "μs "@ + "p99="@);
        assert("μs p999="@ =~= "μs"@ + " p999="@);
        let before = "count="@ + decimal(st.count as nat) + " min="@ + decimal(st.min as nat / 1000) + "μs p50="@ + decimal(st.p50 as nat / 1000) + "μs "@;
        let after = " p999="@ + decimal(st.p999 as nat / 1000) + "μs max="@ + decimal(st.max as nat / 1000) + "μs"@;
        assert(st.format_micros_spec() =~= before + "p99="@ + decimal(st.p99 as nat / 1000) + "μs"@ + after);
        lemma_shows(before, "p99="@, st.p99 as nat / 1000, "μs"@, after);
    }
    assert(shows(st.format_micros_spec(), "p999="@, st.p999 as nat / 1000, "μs"@)) by {
        reveal_strlit(" max=");
        reveal_strlit("p999=");
        reveal_strlit("μs");
        reveal_strlit("μs ");
        reveal_strlit("μs max=");
        reveal_strlit("μs p999=");
        assert("μs p999="@ =~= "μs "@ + "p999="@);
        assert("μs max="@ =~= "μs"@ + " max="@);
        let before = "count="@ + decimal(st.count as nat) + " min="@ + decimal(st.min as nat / 1000) + "μs p50="@ + decimal(st.p50 as nat / 1000) + "μs p99="@ + decimal(st.p99 as nat / 1000) + "μs "@;
        let after = " max="@ + decimal(st.max as nat / 1000) + "μs"@;
        assert(st.format_micros_spec() =~= before + "p999="@ + decimal(st.p999 as nat / 1000) + "μs"@ + after);
        lemma_shows(before, "p999="@, st.p999 as nat / 1000, "μs"@, after);
    }
    assert(shows(st.format_micros_spec(), "max="@, st.max as nat / 1000, "μs"@)) by {
        reveal_strlit("max=");
        reveal_strlit("μs");
        reveal_strlit("μs ");
        reveal_strlit("μs max=");
        assert("μs max="@ =~= "μs "@ + "max="@);
        let before = "count="@ + decimal(st.count as nat) + " min="@ + decimal(st.min as nat / 1000) + "μs p50="@ + decimal(st.p50 as nat / 1000) + "μs p99="@ + decimal(st.p99 as nat / 1000) + "μs p999="@ + decimal(st.p999 as nat / 1000) + "μs "@;
        let after = Seq::<char>::empty();
        assert(st.format_micros_spec() =~= before + "max="@ + decimal(st.max as nat / 1000) + "μs"@ + after);
        lemma_shows(before, "max="@, st.max as nat / 1000, "μs"@, after);
    }
}

/// Statistics that agree in their count and, in whole microseconds, in
/// their minimum, p50, p99, p999 and maximum render identically in
/// microseconds: the rendering reads each duration only through
/// `field / 1000`.
pub proof fn lemma_stats_format_micros_whole(a: LatencyStats, b: LatencyStats)
    requires
        a.count == b.count,
        a.min / 1000 == b.min / 1000,
        a.p50 / 1000 == b.p50 / 1000,
        a.p99 / 1000 == b.p99 / 1000,
        a.p999 / 1000 == b.p999 / 1000,
        a.max / 1000 == b.max / 1000,
    ensures
        a.format_micros_spec() == b.format_micros_spec(),
{
}

} // verus!
