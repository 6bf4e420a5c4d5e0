use vstd::prelude::*;

verus! {

/// Number of measurements in one sample record: the fixed column count that
/// the sampling tool's output table is expected to carry, and the number of
/// gauges the registry publishes.
pub const MEASUREMENT_COUNT: usize = 29;

/// Metric identifier of the measurement at position `i` of the catalogue.
pub open spec fn spec_metric_name(i: int) -> Seq<char> {
    if i == 0 {
        "amd_ic_fetch_miss_ratio"@
    } else if i == 1 {
        "amd_op_cache_fetch_miss_ratio"@
    } else if i == 2 {
        "amd_ic_access_pti"@
    } else if i == 3 {
        "amd_ic_miss_pti"@
    } else if i == 4 {
        "amd_dc_access_pti"@
    } else if i == 5 {
        "amd_l2_access_pti"@
    } else if i == 6 {
        "amd_l2_access_from_ic_miss_pti"@
    } else if i == 7 {
        "amd_l2_access_from_dc_miss_pti"@
    } else if i == 8 {
        "amd_l2_access_from_l2_hwpf_pti"@
    } else if i == 9 {
        "amd_l2_miss_pti"@
    } else if i == 10 {
        "amd_l2_miss_from_ic_miss_pti"@
    } else if i == 11 {
        "amd_l2_miss_from_dc_miss_pti"@
    } else if i == 12 {
        "amd_l2_miss_from_l2_hwpf_pti"@
    } else if i == 13 {
        "amd_l2_hit_pti"@
    } else if i == 14 {
        "amd_l2_hit_from_ic_miss_pti"@
    } else if i == 15 {
        "amd_l2_hit_from_dc_miss_pti"@
    } else if i == 16 {
        "amd_l2_hit_from_l2_hwpf_pti"@
    } else if i == 17 {
        "amd_l3_access"@
    } else if i == 18 {
        "amd_l3_miss"@
    } else if i == 19 {
        "amd_l3_miss_percent"@
    } else if i == 20 {
        "amd_l3_hit_percent"@
    } else if i == 21 {
        "amd_ave_l3_miss_latency_ns"@
    } else if i == 22 {
        "amd_total_mem_bw_gbps"@
    } else if i == 23 {
        "amd_local_dram_read_data_bytes_gbps"@
    } else if i == 24 {
        "amd_local_dram_write_data_bytes_gbps"@
    } else if i == 25 {
        "amd_remote_dram_read_data_bytes_gbps"@
    } else if i == 26 {
        "amd_remote_dram_write_data_bytes_gbps"@
    } else if i == 27 {
        "amd_total_mem_rdbw_gbps"@
    } else {
        "amd_total_mem_wrbw_gbps"@
    }
}

/// Human-readable description of the measurement at position `i`.
pub open spec fn spec_metric_help(i: int) -> Seq<char> {
    if i == 0 {
        "IC Fetch Miss Ratio"@
    } else if i == 1 {
        "Op Cache Fetch Miss Ratio"@
    } else if i == 2 {
        "IC Access (pti)"@
    } else if i == 3 {
        "IC Miss (pti)"@
    } else if i == 4 {
        "DC Access (pti)"@
    } else if i == 5 {
        "L2 Access (pti)"@
    } else if i == 6 {
        "L2 Access from IC Miss (pti)"@
    } else if i == 7 {
        "L2 Access from DC Miss (pti)"@
    } else if i == 8 {
        "L2 Access from L2 HWPF (pti)"@
    } else if i == 9 {
        "L2 Miss (pti)"@
    } else if i == 10 {
        "L2 Miss from IC Miss (pti)"@
    } else if i == 11 {
        "L2 Miss from DC Miss (pti)"@
    } else if i == 12 {
        "L2 Miss from L2 HWPF (pti)"@
    } else if i == 13 {
        "L2 Hit (pti)"@
    } else if i == 14 {
        "L2 Hit from IC Miss (pti)"@
    } else if i == 15 {
        "L2 Hit from DC Miss (pti)"@
    } else if i == 16 {
        "L2 Hit from L2 HWPF (pti)"@
    } else if i == 17 {
        "L3 Access"@
    } else if i == 18 {
        "L3 Miss"@
    } else if i == 19 {
        "L3 Miss %"@
    } else if i == 20 {
        "L3 Hit %"@
    } else if i == 21 {
        "Ave L3 Miss Latency (ns)"@
    } else if i == 22 {
        "Total Mem Bw (GB/s)"@
    } else if i == 23 {
        "Local DRAM Read Data Bytes(GB/s)"@
    } else if i == 24 {
        "Local DRAM Write Data Bytes(GB/s)"@
    } else if i == 25 {
        "Remote DRAM Read Data Bytes (GB/s)"@
    } else if i == 26 {
        "Remote DRAM Write Data Bytes (GB/s)"@
    } else if i == 27 {
        "Total Mem RdBw (GB/s)"@
    } else {
        "Total Mem WrBw (GB/s)"@
    }
}

/// Metric identifier of the measurement at position `i`, as executable text.
pub fn metric_name(i: usize) -> (r: &'static str)
    requires
        i < MEASUREMENT_COUNT,
    ensures
        r@ == spec_metric_name(i as int),
{
    match i {
        0 => "amd_ic_fetch_miss_ratio",
        1 => "amd_op_cache_fetch_miss_ratio",
        2 => "amd_ic_access_pti",
        3 => "amd_ic_miss_pti",
        4 => "amd_dc_access_pti",
        5 => "amd_l2_access_pti",
        6 => "amd_l2_access_from_ic_miss_pti",
        7 => "amd_l2_access_from_dc_miss_pti",
        8 => "amd_l2_access_from_l2_hwpf_pti",
        9 => "amd_l2_miss_pti",
        10 => "amd_l2_miss_from_ic_miss_pti",
        11 => "amd_l2_miss_from_dc_miss_pti",
        12 => "amd_l2_miss_from_l2_hwpf_pti",
        13 => "amd_l2_hit_pti",
        14 => "amd_l2_hit_from_ic_miss_pti",
        15 => "amd_l2_hit_from_dc_miss_pti",
        16 => "amd_l2_hit_from_l2_hwpf_pti",
        17 => "amd_l3_access",
        18 => "amd_l3_miss",
        19 => "amd_l3_miss_percent",
        20 => "amd_l3_hit_percent",
        21 => "amd_ave_l3_miss_latency_ns",
        22 => "amd_total_mem_bw_gbps",
        23 => "amd_local_dram_read_data_bytes_gbps",
        24 => "amd_local_dram_write_data_bytes_gbps",
        25 => "amd_remote_dram_read_data_bytes_gbps",
        26 => "amd_remote_dram_write_data_bytes_gbps",
        27 => "amd_total_mem_rdbw_gbps",
        _ => "amd_total_mem_wrbw_gbps",
    }
}

/// Description of the measurement at position `i`, as executable text.
pub fn metric_help(i: usize) -> (r: &'static str)
    requires
        i < MEASUREMENT_COUNT,
    ensures
        r@ == spec_metric_help(i as int),
{
    match i {
        0 => "IC Fetch Miss Ratio",
        1 => "Op Cache Fetch Miss Ratio",
        2 => "IC Access (pti)",
        3 => "IC Miss (pti)",
        4 => "DC Access (pti)",
        5 => "L2 Access (pti)",
        6 => "L2 Access from IC Miss (pti)",
        7 => "L2 Access from DC Miss (pti)",
        8 => "L2 Access from L2 HWPF (pti)",
        9 => "L2 Miss (pti)",
        10 => "L2 Miss from IC Miss (pti)",
        11 => "L2 Miss from DC Miss (pti)",
        12 => "L2 Miss from L2 HWPF (pti)",
        13 => "L2 Hit (pti)",
        14 => "L2 Hit from IC Miss (pti)",
        15 => "L2 Hit from DC Miss (pti)",
        16 => "L2 Hit from L2 HWPF (pti)",
        17 => "L3 Access",
        18 => "L3 Miss",
        19 => "L3 Miss %",
        20 => "L3 Hit %",
        21 => "Ave L3 Miss Latency (ns)",
        22 => "Total Mem Bw (GB/s)",
        23 => "Local DRAM Read Data Bytes(GB/s)",
        24 => "Local DRAM Write Data Bytes(GB/s)",
        25 => "Remote DRAM Read Data Bytes (GB/s)",
        26 => "Remote DRAM Write Data Bytes (GB/s)",
        27 => "Total Mem RdBw (GB/s)",
        _ => "Total Mem WrBw (GB/s)",
    }
}


/// Law (catalogue well-formedness): every catalogue name is a metric name
/// the registry's validation accepts, every description is nonempty, and the
/// names are pairwise distinct — so registering the whole catalogue on a
/// fresh registry succeeds.
#[verifier::rlimit(100)]
pub proof fn lemma_catalog_names_wf()
    ensures
        forall|i: int|
            0 <= i < MEASUREMENT_COUNT as int ==> crate::gauges::valid_metric_name(
                #[trigger] spec_metric_name(i),
            ),
        forall|i: int|
            0 <= i < MEASUREMENT_COUNT as int ==> (#[trigger] spec_metric_help(i)).len() > 0,
        forall|i: int, j: int|
            0 <= i < j < MEASUREMENT_COUNT as int ==> spec_metric_name(i) != spec_metric_name(j),
{
    reveal_strlit("amd_ic_fetch_miss_ratio");
    reveal_strlit("amd_op_cache_fetch_miss_ratio");
    reveal_strlit("amd_ic_access_pti");
    reveal_strlit("amd_ic_miss_pti");
    reveal_strlit("amd_dc_access_pti");
    reveal_strlit("amd_l2_access_pti");
    reveal_strlit("amd_l2_access_from_ic_miss_pti");
    reveal_strlit("amd_l2_access_from_dc_miss_pti");
    reveal_strlit("amd_l2_access_from_l2_hwpf_pti");
    reveal_strlit("amd_l2_miss_pti");
    reveal_strlit("amd_l2_miss_from_ic_miss_pti");
    reveal_strlit("amd_l2_miss_from_dc_miss_pti");
    reveal_strlit("amd_l2_miss_from_l2_hwpf_pti");
    reveal_strlit("amd_l2_hit_pti");
    reveal_strlit("amd_l2_hit_from_ic_miss_pti");
    reveal_strlit("amd_l2_hit_from_dc_miss_pti");
    reveal_strlit("amd_l2_hit_from_l2_hwpf_pti");
    reveal_strlit("amd_l3_access");
    reveal_strlit("amd_l3_miss");
    reveal_strlit("amd_l3_miss_percent");
    reveal_strlit("amd_l3_hit_percent");
    reveal_strlit("amd_ave_l3_miss_latency_ns");
    reveal_strlit("amd_total_mem_bw_gbps");
    reveal_strlit("amd_local_dram_read_data_bytes_gbps");
    reveal_strlit("amd_local_dram_write_data_bytes_gbps");
    reveal_strlit("amd_remote_dram_read_data_bytes_gbps");
    reveal_strlit("amd_remote_dram_write_data_bytes_gbps");
    reveal_strlit("amd_total_mem_rdbw_gbps");
    reveal_strlit("amd_total_mem_wrbw_gbps");
    reveal_strlit("IC Fetch Miss Ratio");
    reveal_strlit("Op Cache Fetch Miss Ratio");
    reveal_strlit("IC Access (pti)");
    reveal_strlit("IC Miss (pti)");
    reveal_strlit("DC Access (pti)");
    reveal_strlit("L2 Access (pti)");
    reveal_strlit("L2 Access from IC Miss (pti)");
    reveal_strlit("L2 Access from DC Miss (pti)");
    reveal_strlit("L2 Access from L2 HWPF (pti)");
    reveal_strlit("L2 Miss (pti)");
    reveal_strlit("L2 Miss from IC Miss (pti)");
    reveal_strlit("L2 Miss from DC Miss (pti)");
    reveal_strlit("L2 Miss from L2 HWPF (pti)");
    reveal_strlit("L2 Hit (pti)");
    reveal_strlit("L2 Hit from IC Miss (pti)");
    reveal_strlit("L2 Hit from DC Miss (pti)");
    reveal_strlit("L2 Hit from L2 HWPF (pti)");
    reveal_strlit("L3 Access");
    reveal_strlit("L3 Miss");
    reveal_strlit("L3 Miss %");
    reveal_strlit("L3 Hit %");
    reveal_strlit("Ave L3 Miss Latency (ns)");
    reveal_strlit("Total Mem Bw (GB/s)");
    reveal_strlit("Local DRAM Read Data Bytes(GB/s)");
    reveal_strlit("Local DRAM Write Data Bytes(GB/s)");
    reveal_strlit("Remote DRAM Read Data Bytes (GB/s)");
    reveal_strlit("Remote DRAM Write Data Bytes (GB/s)");
    reveal_strlit("Total Mem RdBw (GB/s)");
    reveal_strlit("Total Mem WrBw (GB/s)");

    assert forall|i: int, j: int|
        0 <= i < j < MEASUREMENT_COUNT as int implies spec_metric_name(i) != spec_metric_name(
        j,
    ) by {
        let a = spec_metric_name(i);
        let b = spec_metric_name(j);
        assert(a.len() >= 11 && b.len() >= 11);
        if a == b {
            assert(a.len() == b.len());
            assert(a[4] == b[4]);
            assert(a[a.len() - 11] == b[b.len() - 11]);
            assert(a[a.len() - 9] == b[b.len() - 9]);
            assert(false);
        }
    }
}

} // verus!
