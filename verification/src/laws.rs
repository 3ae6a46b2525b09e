//! Properties that hold across the library's operations.

use vstd::prelude::*;
use crate::calculator::progress_core::{percentage_of, lemma_rounded_tenths_bound, lemma_rounded_tenths_monotone};
use crate::calculator::quantization_analyzer::{
    FileAnalysisInfo, QuantizationAnalysis, count_where, is_analysis_of, is_model_entry, matching_count,
    normalized, quantization_check, quantization_count, quantization_of, table_count, lemma_table_count,
    uppercase,
};
use crate::calculator::snapshot::{
    files_after_update, model_after_update, models_after_update, name_key, new_model_with,
    position_with_key, has_model,
};
use crate::calculator::types::{FileProgressView, ModelProgressView};
use crate::calculator::progress_calculator::{model_state_counts, finished_file_count, finished_files_total, total_file_count};
use crate::central_dispatcher::{CentralProgressDispatcher, dispatch_due, scan_due, snapshot_models};
use crate::filesystem_evaluator::consecutive_from_zero;
use crate::filesystem_evaluator::{last_validated, validated_value, cache_dir_name_of, dashes_to_slashes, model_id_of_cache_dir, slashes_to_dashes};
use crate::manifest::{FileInfo, optimal_chunk_size, optimized_chunk_size};
use crate::orchestration::{
    HealthReportCard, WorkerEvent, WorkerHealthMetrics, WorkerHealthStatus, apply_worker_event,
    counts_as_healthy, healthy_count, is_report_of, kept_file_indices, metrics_of,
    needs_restart, report_is_critical, report_status, skipped_by_quantization,
};
use crate::text::{has_prefix, has_substring, has_suffix};

verus! {

/// Completion is reported consistently: a percentage is complete exactly when the
/// total is known and fully downloaded, and indeterminate exactly when the total
/// is zero.
pub proof fn law_completion_agrees(downloaded: u64, total: u64)
    ensures
        percentage_of(downloaded, total).is_complete <==> (total > 0 && downloaded >= total),
        percentage_of(downloaded, total).is_indeterminate <==> total == 0,
        percentage_of(downloaded, total).value_tenths is None <==> total == 0,
{
}

/// Progress is monotone: with the same total, more downloaded bytes never show a
/// smaller percentage, and no percentage exceeds 100.0%.
pub proof fn law_percentage_monotone(d1: u64, d2: u64, total: u64)
    requires
        d1 <= d2,
        total > 0,
    ensures
        percentage_of(d1, total).value_tenths->0 <= percentage_of(d2, total).value_tenths->0,
        percentage_of(d2, total).value_tenths->0 <= 1000,
{
    if d1 < total {
        lemma_rounded_tenths_bound(d1 as nat, total as nat);
    }
    if d2 < total {
        lemma_rounded_tenths_bound(d2 as nat, total as nat);
        lemma_rounded_tenths_monotone(d1 as nat, d2 as nat, total as nat);
    }
}

proof fn lemma_count_implies(
    files: Seq<FileAnalysisInfo>,
    p: spec_fn(FileAnalysisInfo) -> bool,
    q: spec_fn(FileAnalysisInfo) -> bool,
)
    requires
        forall|f: FileAnalysisInfo| #[trigger] p(f) ==> q(f),
    ensures
        count_where(files, p) <= count_where(files, q),
    decreases files.len(),
{
    if files.len() > 0 {
        lemma_count_implies(files.drop_last(), p, q);
    }
}

/// Quantization control: a requested quantization passes validation only when
/// some model file of the analyzed files has a quantization with the same
/// normalized name.
pub proof fn law_validated_quantization_has_files(
    analysis: QuantizationAnalysis,
    files: Seq<FileAnalysisInfo>,
    requested: Seq<char>,
)
    requires
        is_analysis_of(analysis, files),
        quantization_check(analysis, requested) is Ok,
    ensures
        matching_count(files, requested) > 0,
{
    let i = choose|i: int|
        0 <= i < analysis.available_quantizations@.len() && normalized(
            analysis.available_quantizations@[i]@,
        ) == normalized(requested);
    let k = analysis.quantization_file_counts@[i].0@;
    assert(analysis.available_quantizations@[i]@ == k);
    assert(quantization_count(files, k) > 0);
    lemma_count_implies(
        files,
        |f: FileAnalysisInfo| is_model_entry(f) && quantization_of(f.path@) == Some(k),
        |f: FileAnalysisInfo|
            is_model_entry(f) && (match quantization_of(f.path@) {
                Some(fq) => normalized(fq) == normalized(requested),
                None => false,
            }),
    );
}

/// The analysis table agrees with counting: for every quantization name, the
/// count that the analysis of `files` lists for it (0 where it is not listed) is
/// the number of model files that name it.
pub proof fn law_analysis_counts_agree(analysis: QuantizationAnalysis, files: Seq<FileAnalysisInfo>, k: Seq<char>)
    requires
        is_analysis_of(analysis, files),
    ensures
        table_count(analysis.quantization_file_counts@, k) == quantization_count(files, k),
{
    lemma_table_count(analysis.quantization_file_counts@, files, k);
}

/// Quantization control: with a quantization filter, a file is planned for
/// download exactly when it is not a GGUF file of another quantization; without a
/// filter every file is planned, and files that are not GGUF files (configuration,
/// tokenizer and documentation files among them) are always planned.
pub proof fn law_planned_files_match_filter(files: Seq<FileInfo>, quantization: Option<String>, n: nat, k: int)
    requires
        n <= files.len(),
        0 <= k < n,
    ensures
        kept_file_indices(files, quantization, n).contains(k) <==> !skipped_by_quantization(
            files[k].path@,
            quantization,
        ),
        quantization is None ==> kept_file_indices(files, quantization, n).contains(k),
        !has_suffix(files[k].path@, ".gguf"@) && !has_substring(files[k].path@, ".gguf"@)
            ==> kept_file_indices(files, quantization, n).contains(k),
    decreases n,
{
    let prev = kept_file_indices(files, quantization, (n - 1) as nat);
    lemma_kept_below(files, quantization, (n - 1) as nat);
    if k < n - 1 {
        law_planned_files_match_filter(files, quantization, (n - 1) as nat, k);
        if !skipped_by_quantization(files[n - 1].path@, quantization) {
            assert(prev.push(n - 1).contains(k) == prev.contains(k)) by {
                if prev.contains(k) {
                    let j = choose|j: int| 0 <= j < prev.len() && prev[j] == k;
                    assert(prev.push(n - 1)[j] == k);
                }
            }
        }
    } else {
        assert(!prev.contains(n - 1));
        if !skipped_by_quantization(files[n - 1].path@, quantization) {
            assert(prev.push(n - 1)[prev.len() as int] == n - 1);
        }
    }
}

proof fn lemma_kept_below(files: Seq<FileInfo>, quantization: Option<String>, n: nat)
    ensures
        forall|j: int| 0 <= j < kept_file_indices(files, quantization, n).len() ==> #[trigger] kept_file_indices(files, quantization, n)[j] < n,
    decreases n,
{
    if n > 0 {
        lemma_kept_below(files, quantization, (n - 1) as nat);
        let rest = kept_file_indices(files, quantization, (n - 1) as nat);
        assert forall|j: int| 0 <= j < rest.push(n - 1).len() implies #[trigger] rest.push(n - 1)[j] < n by {
            if j < rest.len() {
                assert(rest.push(n - 1)[j] == rest[j]);
            }
        }
    }
}

/// Larger files never get a smaller chunk size, by size alone.
pub proof fn law_chunk_size_monotone(a: u64, b: u64)
    requires
        a <= b,
    ensures
        optimal_chunk_size(a) <= optimal_chunk_size(b),
{
}

/// Configuration and text files always get the smallest chunk size, whatever
/// their size.
pub proof fn law_config_files_small_chunks(size: u64, filename: Seq<char>)
    requires
        has_suffix(filename, ".json"@) || has_suffix(filename, ".txt"@) || has_suffix(filename, ".md"@),
    ensures
        optimized_chunk_size(size, filename) == 1048576,
{
}

/// The model id of a model's cache directory is the model id itself, for ids
/// without dashes next to a slash or to another dash.
pub proof fn law_cache_dir_round_trip(model_id: Seq<char>)
    requires
        forall|i: int| 0 <= i < model_id.len() - 1 ==> !dash_clash(model_id, i),
    ensures
        model_id_of_cache_dir(cache_dir_name_of(model_id)) == model_id,
{
    reveal_strlit("models--");
    assert(cache_dir_name_of(model_id).skip(8) =~= slashes_to_dashes(model_id));
    assert(has_prefix(cache_dir_name_of(model_id), "models--"@)) by {
        assert(cache_dir_name_of(model_id).take(8) =~= "models--"@);
    }
    lemma_dashes_round_trip(model_id);
}

/// A dash at `i` directly followed by another dash or by a slash.
pub open spec fn dash_clash(s: Seq<char>, i: int) -> bool {
    s[i] == '-' && (s[i + 1] == '-' || s[i + 1] == '/')
}

proof fn lemma_dashes_round_trip(s: Seq<char>)
    requires
        forall|i: int| 0 <= i < s.len() - 1 ==> !dash_clash(s, i),
    ensures
        dashes_to_slashes(slashes_to_dashes(s)) == s,
    decreases s.len(),
{
    if s.len() > 0 {
        let rest = s.drop_first();
        assert forall|i: int| 0 <= i < rest.len() - 1 implies !dash_clash(rest, i) by {
            assert(!dash_clash(s, i + 1));
            assert(rest[i] == s[i + 1] && rest[i + 1] == s[i + 2]);
        }
        lemma_dashes_round_trip(rest);
        let t = slashes_to_dashes(rest);
        if s[0] == '/' {
            let d = seq!['-', '-'] + t;
            assert(d.skip(2) =~= t);
            assert(slashes_to_dashes(s) == d);
        } else {
            let d = seq![s[0]] + t;
            assert(d.drop_first() =~= t);
            if s[0] == '-' && d.len() >= 2 {
                assert(!dash_clash(s, 0));
                lemma_dashes_head(rest);
                assert(d[1] != '-');
            }
            assert(slashes_to_dashes(s) == d);
        }
        assert(dashes_to_slashes(slashes_to_dashes(s)) =~= s);
    } else {
        assert(dashes_to_slashes(slashes_to_dashes(s)) =~= s);
    }
}

proof fn lemma_dashes_head(s: Seq<char>)
    requires
        s.len() > 0,
        s[0] != '-' && s[0] != '/',
    ensures
        slashes_to_dashes(s).len() > 0 && slashes_to_dashes(s)[0] == s[0],
{
}

/// A health report accounts for every worker: the healthy workers and those
/// needing a restart add up to all workers.
pub proof fn law_report_partition(r: HealthReportCard, metrics: Seq<WorkerHealthMetrics>, timeout_ms: u64)
    requires
        is_report_of(r, metrics, timeout_ms),
    ensures
        r.healthy_workers + r.workers_needing_restart == r.total_workers,
        r.healthy_workers <= r.total_workers,
{
    lemma_healthy_bound(metrics, timeout_ms);
}

proof fn lemma_healthy_bound(s: Seq<WorkerHealthMetrics>, timeout_ms: u64)
    ensures
        healthy_count(s, timeout_ms) <= s.len(),
    decreases s.len(),
{
    if s.len() > 0 {
        lemma_healthy_bound(s.drop_last(), timeout_ms);
    }
}

/// The status words order the system's health: "HEALTHY" exactly when the system
/// is not critical and no worker needs a restart, "WARNING" exactly when it is not
/// critical but some worker needs one.
pub proof fn law_status_summary(r: HealthReportCard)
    ensures
        report_status(r) == "HEALTHY"@ <==> (!report_is_critical(r) && r.workers_needing_restart == 0),
        report_status(r) == "WARNING"@ <==> (!report_is_critical(r) && r.workers_needing_restart > 0),
        report_status(r) == "CRITICAL"@ <==> report_is_critical(r),
{
    reveal_strlit("HEALTHY");
    reveal_strlit("WARNING");
    reveal_strlit("CRITICAL");
    assert("HEALTHY"@ != "WARNING"@) by { assert("HEALTHY"@[0] != "WARNING"@[0]); }
    assert("HEALTHY"@ != "CRITICAL"@) by { assert("HEALTHY"@[0] != "CRITICAL"@[0]); }
    assert("WARNING"@ != "CRITICAL"@) by { assert("WARNING"@[0] != "CRITICAL"@[0]); }
}

/// A worker given up as unhealthy is picked for a restart, and a restarted
/// worker counts as healthy at the time of its restart.
pub proof fn law_unhealthy_worker_restarted(w: WorkerHealthStatus, t: u64, now_ms: u64, timeout_ms: u64)
    ensures
        needs_restart(apply_worker_event(w, WorkerEvent::MarkUnhealthy, t), now_ms),
        counts_as_healthy(metrics_of(apply_worker_event(w, WorkerEvent::Restarted, t), t), timeout_ms),
        !needs_restart(apply_worker_event(w, WorkerEvent::Restarted, t), now_ms),
{
}

proof fn lemma_position_facts(files: Seq<FileProgressView>, key: Option<Seq<char>>)
    ensures
        match position_with_key(files, key) {
            Some(i) => 0 <= i < files.len() && name_key(files[i]) == key && forall|j: int|
                0 <= j < i ==> name_key(#[trigger] files[j]) != key,
            None => forall|j: int| 0 <= j < files.len() ==> name_key(#[trigger] files[j]) != key,
        },
    decreases files.len(),
{
    if files.len() > 0 {
        lemma_position_facts(files.drop_last(), key);
        let p = files.drop_last();
        assert forall|j: int| 0 <= j < p.len() implies #[trigger] files[j] == p[j] by {}
    }
}

proof fn lemma_position_unique(files: Seq<FileProgressView>, key: Option<Seq<char>>, i: int)
    requires
        0 <= i < files.len(),
        name_key(files[i]) == key,
        forall|j: int| 0 <= j < i ==> name_key(#[trigger] files[j]) != key,
    ensures
        position_with_key(files, key) == Some(i),
{
    lemma_position_facts(files, key);
}

proof fn lemma_files_update_idempotent(files: Seq<FileProgressView>, u: FileProgressView)
    ensures
        files_after_update(files_after_update(files, u), u) == files_after_update(files, u),
{
    let key = name_key(u);
    lemma_position_facts(files, key);
    let once = files_after_update(files, u);
    match position_with_key(files, key) {
        Some(i) => {
            assert forall|j: int| 0 <= j < i implies name_key(#[trigger] once[j]) != key by {
                assert(once[j] == files[j]);
            }
            lemma_position_unique(once, key, i);
            assert(once.update(i, u) =~= once);
        },
        None => {
            let i = files.len() as int;
            assert forall|j: int| 0 <= j < i implies name_key(#[trigger] once[j]) != key by {
                assert(once[j] == files[j]);
            }
            lemma_position_unique(once, key, i);
            assert(once.update(i, u) =~= once);
        },
    }
}

/// Recording the same file update twice gives the same models as recording it once.
pub proof fn law_update_idempotent(models: Seq<ModelProgressView>, model_id: Seq<char>, u: FileProgressView)
    ensures
        models_after_update(models_after_update(models, model_id, u), model_id, u) == models_after_update(
            models,
            model_id,
            u,
        ),
{
    let once = models_after_update(models, model_id, u);
    if has_model(models, model_id) {
        let j = choose|j: int| 0 <= j < models.len() && (#[trigger] models[j]).model_id == model_id;
        assert(once[j].model_id == model_id);
        assert(has_model(once, model_id));
        let twice = models_after_update(once, model_id, u);
        assert forall|k: int| 0 <= k < once.len() implies #[trigger] twice[k] == once[k] by {
            let m = models[k];
            if m.model_id == model_id {
                lemma_files_update_idempotent(m.files, u);
                assert(model_after_update(model_after_update(m, u), u) =~= model_after_update(m, u));
            }
        }
        assert(twice =~= once);
    } else {
        let n = models.len() as int;
        assert(once[n].model_id == model_id);
        assert(has_model(once, model_id));
        let twice = models_after_update(once, model_id, u);
        assert forall|k: int| 0 <= k < once.len() implies #[trigger] twice[k] == once[k] by {
            if k < n {
                assert(once[k] == models[k]);
            } else {
                let m = new_model_with(model_id, u);
                lemma_position_facts(seq![u], name_key(u));
                lemma_position_unique(seq![u], name_key(u), 0);
                assert(files_after_update(seq![u], u) =~= seq![u]);
                assert(model_after_update(m, u) =~= m) by {
                    reveal_with_fuel(crate::calculator::snapshot::files_downloaded_sum, 2);
                    reveal_with_fuel(crate::calculator::snapshot::files_total_sum, 2);
                }
            }
        }
        assert(twice =~= once);
    }
}

/// Model states partition the models: pending, active and completed add up to the
/// number of models.
pub proof fn law_model_counts_partition(models: Seq<ModelProgressView>)
    ensures
        model_state_counts(models).0 + model_state_counts(models).1 + model_state_counts(models).2
            == models.len(),
    decreases models.len(),
{
    if models.len() > 0 {
        law_model_counts_partition(models.drop_last());
    }
}

/// At most one dispatch per debounce interval, and an immediate dispatch after
/// quietude: after a dispatch at `t1`, a dispatch is due at `t2` exactly when the
/// interval has passed; the first event always finds a dispatch due.
pub proof fn law_dispatch_debounced(d: CentralProgressDispatcher, t1: u64, t2: u64)
    requires
        t1 <= t2,
    ensures
        d.last_dispatch_ms == Some(t1) ==> (dispatch_due(d, t2) <==> t2 - t1 >= d.debounce_interval_ms),
        d.last_dispatch_ms is None ==> dispatch_due(d, t2),
{
}

/// At most one scan per scan interval, and an immediate scan after quietude:
/// after a scan at `t1`, a scan is due at `t2` exactly when the interval has
/// passed; the first event always finds a scan due.
pub proof fn law_scan_debounced(d: CentralProgressDispatcher, t1: u64, t2: u64)
    requires
        t1 <= t2,
    ensures
        d.last_scan_ms == Some(t1) ==> (scan_due(d, t2) <==> t2 - t1 >= d.scan_interval_ms),
        d.last_scan_ms is None ==> scan_due(d, t2),
{
}

/// Validated progress never goes backwards: once bytes `v` were validated for a
/// file, any later report for that file, however small, validates at least `v`.
pub proof fn law_validated_progress_monotone(
    h: Seq<(Seq<char>, Seq<char>, u64)>,
    model: Seq<char>,
    file: Seq<char>,
    v: u64,
    reported: u64,
)
    requires
        last_validated(h, model, file) == Some(v),
    ensures
        validated_value(last_validated(h, model, file), reported) >= v,
        validated_value(last_validated(h, model, file), reported) >= reported,
{
}

/// A file whose downloaded bytes reached its total.
pub open spec fn file_finished(f: FileProgressView) -> bool {
    f.bytes_downloaded >= f.total_bytes
}

proof fn lemma_finished_files(files: Seq<FileProgressView>)
    ensures
        finished_file_count(files) <= files.len(),
        finished_file_count(files) == files.len() <==> forall|j: int|
            0 <= j < files.len() ==> file_finished(#[trigger] files[j]),
    decreases files.len(),
{
    if files.len() > 0 {
        let p = files.drop_last();
        lemma_finished_files(p);
        assert forall|j: int| 0 <= j < p.len() implies #[trigger] p[j] == files[j] by {}
        if finished_file_count(files) == files.len() {
            assert forall|j: int| 0 <= j < files.len() implies file_finished(#[trigger] files[j]) by {
                if j < p.len() {
                    assert(file_finished(p[j]));
                }
            }
        }
        if forall|j: int| 0 <= j < files.len() ==> file_finished(#[trigger] files[j]) {
            assert forall|j: int| 0 <= j < p.len() implies file_finished(#[trigger] p[j]) by {
                assert(file_finished(files[j]));
            }
            assert(file_finished(files[files.len() - 1]));
        }
    }
}

proof fn lemma_finished_models(models: Seq<ModelProgressView>)
    ensures
        finished_files_total(models) <= total_file_count(models),
        finished_files_total(models) == total_file_count(models) <==> forall|i: int, j: int|
            0 <= i < models.len() && 0 <= j < models[i].files.len() ==> file_finished(
                #[trigger] models[i].files[j],
            ),
    decreases models.len(),
{
    if models.len() > 0 {
        let p = models.drop_last();
        let last = models.last();
        lemma_finished_models(p);
        lemma_finished_files(last.files);
        assert forall|i: int| 0 <= i < p.len() implies #[trigger] p[i] == models[i] by {}
        if finished_files_total(models) == total_file_count(models) {
            assert forall|i: int, j: int|
                0 <= i < models.len() && 0 <= j < models[i].files.len() implies file_finished(
                    #[trigger] models[i].files[j],
                ) by {
                if i < p.len() {
                    assert(p[i] == models[i]);
                    assert(file_finished(p[i].files[j]));
                } else {
                    assert(models[i] == last);
                    assert(file_finished(last.files[j]));
                }
            }
        }
        if forall|i: int, j: int|
            0 <= i < models.len() && 0 <= j < models[i].files.len() ==> file_finished(
                #[trigger] models[i].files[j],
            ) {
            assert forall|i: int, j: int|
                0 <= i < p.len() && 0 <= j < p[i].files.len() implies file_finished(
                    #[trigger] p[i].files[j],
                ) by {
                assert(p[i] == models[i]);
                assert(file_finished(models[i].files[j]));
            }
            assert forall|j: int| 0 <= j < last.files.len() implies file_finished(#[trigger] last.files[j]) by {
                assert(models[models.len() - 1] == last);
                assert(file_finished(models[models.len() - 1].files[j]));
            }
        }
    }
}

/// Finalization: the download counts as fully finalized (some file, and as many
/// finished files as files) exactly when there is a file and every file of every
/// model has downloaded its total.
pub proof fn law_fully_finalized_iff_every_file_finished(models: Seq<ModelProgressView>)
    ensures
        (total_file_count(models) > 0 && finished_files_total(models) == total_file_count(models)) <==> (
        total_file_count(models) > 0 && forall|i: int, j: int|
            0 <= i < models.len() && 0 <= j < models[i].files.len() ==> file_finished(
                #[trigger] models[i].files[j],
            )),
{
    lemma_finished_models(models);
}

/// The quantization indicators of `.bin` and `.safetensors` names, in the order
/// they are tried.
pub open spec fn model_file_indicators() -> Seq<Seq<char>> {
    seq![
        "Q2_K"@, "Q3_K_S"@, "Q3_K_M"@, "Q3_K_L"@, "Q4_0"@, "Q4_1"@, "Q4_K_S"@, "Q4_K_M"@, "Q5_0"@,
        "Q5_1"@, "Q5_K_S"@, "Q5_K_M"@, "Q6_K"@, "Q8_0"@, "F16"@, "FP16"@, "F32"@, "FP32"@,
    ]
}

/// Every indicator is recognized, the first in the list winning: a `.bin` or
/// `.safetensors` path whose upper-case name contains an indicator, and none that
/// comes before it in the list, names that indicator, normalized (so a name that
/// contains exactly one indicator names that one).
pub proof fn law_first_indicator_is_recognized(path: Seq<char>, i: int)
    requires
        0 <= i < model_file_indicators().len(),
        !has_suffix(path, ".gguf"@),
        has_suffix(path, ".bin"@) || has_suffix(path, ".safetensors"@),
        has_substring(uppercase(path), model_file_indicators()[i]),
        forall|j: int| 0 <= j < i ==> !has_substring(uppercase(path), #[trigger] model_file_indicators()[j]),
    ensures
        quantization_of(path) == Some(normalized(model_file_indicators()[i])),
{
    let inds = model_file_indicators();
    assert(inds.len() == 18);
    assert(inds[0] == "Q2_K"@);
    assert(inds[1] == "Q3_K_S"@);
    assert(inds[2] == "Q3_K_M"@);
    assert(inds[3] == "Q3_K_L"@);
    assert(inds[4] == "Q4_0"@);
    assert(inds[5] == "Q4_1"@);
    assert(inds[6] == "Q4_K_S"@);
    assert(inds[7] == "Q4_K_M"@);
    assert(inds[8] == "Q5_0"@);
    assert(inds[9] == "Q5_1"@);
    assert(inds[10] == "Q5_K_S"@);
    assert(inds[11] == "Q5_K_M"@);
    assert(inds[12] == "Q6_K"@);
    assert(inds[13] == "Q8_0"@);
    assert(inds[14] == "F16"@);
    assert(inds[15] == "FP16"@);
    assert(inds[16] == "F32"@);
    assert(inds[17] == "FP32"@);
}

/// A `.bin` or `.safetensors` path whose upper-case name contains none of the
/// indicators names no quantization.
pub proof fn law_no_indicator_no_quantization(path: Seq<char>)
    requires
        !has_suffix(path, ".gguf"@),
        has_suffix(path, ".bin"@) || has_suffix(path, ".safetensors"@),
        forall|j: int|
            0 <= j < model_file_indicators().len() ==> !has_substring(uppercase(path), #[trigger] model_file_indicators()[j]),
    ensures
        quantization_of(path) is None,
{
    let inds = model_file_indicators();
    assert(inds[0] == "Q2_K"@);
    assert(inds[1] == "Q3_K_S"@);
    assert(inds[2] == "Q3_K_M"@);
    assert(inds[3] == "Q3_K_L"@);
    assert(inds[4] == "Q4_0"@);
    assert(inds[5] == "Q4_1"@);
    assert(inds[6] == "Q4_K_S"@);
    assert(inds[7] == "Q4_K_M"@);
    assert(inds[8] == "Q5_0"@);
    assert(inds[9] == "Q5_1"@);
    assert(inds[10] == "Q5_K_S"@);
    assert(inds[11] == "Q5_K_M"@);
    assert(inds[12] == "Q6_K"@);
    assert(inds[13] == "Q8_0"@);
    assert(inds[14] == "F16"@);
    assert(inds[15] == "FP16"@);
    assert(inds[16] == "F32"@);
    assert(inds[17] == "FP32"@);
}

/// A ranged download with a gap among its first six sorted range indices, one
/// not starting at range 0, or one with fewer than two ranges, is incomplete; one
/// whose first six (or fewer) indices are 0, 1, 2, ... is complete.
pub proof fn law_range_completeness(s: Seq<u32>)
    ensures
        consecutive_from_zero(s) <==> (s.len() > 1 && forall|k: int| 0 <= k < s.len() && k < 6 ==> #[trigger] s[k] == k),
        forall|j: int| 0 <= j < 5 && j + 1 < s.len() && #[trigger] s[j + 1] != s[j] + 1 ==> !consecutive_from_zero(s),
{
    if consecutive_from_zero(s) {
        assert forall|k: int| 0 <= k < s.len() && k < 6 implies #[trigger] s[k] == k by {
            if k >= 1 { assert(s[1] == s[0] + 1); }
            if k >= 2 { assert(s[2] == s[1] + 1); }
            if k >= 3 { assert(s[3] == s[2] + 1); }
            if k >= 4 { assert(s[4] == s[3] + 1); }
            if k >= 5 { assert(s[5] == s[4] + 1); }
        }
    }
    if s.len() > 1 && forall|k: int| 0 <= k < s.len() && k < 6 ==> #[trigger] s[k] == k {
        assert(s[0] == 0);
        assert forall|j: int| 0 <= j < s.len() - 1 && j < 5 implies #[trigger] s[j + 1] == s[j] + 1 by {
            assert(s[j] == j);
            assert(s[j + 1] == j + 1);
        }
    }
}

/// Scanned models are shown as scanned: each keeps its id and downloaded bytes,
/// and its total is the manifest's total only when the manifest describes that
/// model; any other model keeps its own scanned total.
pub proof fn law_scanned_model_totals(d: CentralProgressDispatcher, cache_dir: std::path::PathBuf, i: int)
    requires
        d.latest_scan_results is Some,
        0 <= i < d.latest_scan_results->0.models@.len(),
    ensures
        snapshot_models(d, cache_dir).len() == d.latest_scan_results->0.models@.len(),
        ({
            let m = d.latest_scan_results->0.models@[i];
            let v = snapshot_models(d, cache_dir)[i];
            &&& v.model_id == m.model_id@
            &&& v.bytes_downloaded == m.model_bytes_downloaded
            &&& (match d.manifest_info {
                Some(mi) => if mi.model_id@ == m.model_id@ {
                    v.total_bytes == mi.total_bytes
                } else {
                    v.total_bytes == m.model_total_bytes
                },
                None => v.total_bytes == m.model_total_bytes,
            })
        }),
{
}

/// A model is pending exactly when its total is unknown (0), completed when it
/// downloaded its known total, and active otherwise, whatever it downloaded: the
/// counts are the numbers of models in each of these classes.
pub proof fn law_model_states_by_bytes(models: Seq<ModelProgressView>)
    ensures
        model_state_counts(models).0 == models.filter(|m: ModelProgressView| m.total_bytes == 0).len(),
        model_state_counts(models).1 == models.filter(
            |m: ModelProgressView| m.total_bytes > 0 && m.bytes_downloaded < m.total_bytes,
        ).len(),
        model_state_counts(models).2 == models.filter(
            |m: ModelProgressView| m.total_bytes > 0 && m.bytes_downloaded >= m.total_bytes,
        ).len(),
    decreases models.len(),
{
    reveal(Seq::filter);
    if models.len() > 0 {
        law_model_states_by_bytes(models.drop_last());
    }
}

} // verus!
