//! Building and updating immutable progress snapshots.

use vstd::prelude::*;
use crate::calculator::types::{
    FileProgressView, ImmutableFileProgress, ImmutableModelProgress, ImmutableProgressState,
    ModelProgressView, chunk_list_new, file_entries_of, file_list_new, file_list_push_back, file_views,
    metadata_entries, metadata_insert, metadata_new, model_entries_of, model_list_new,
    model_list_push_back, model_views, no_metadata, file_list_len, file_list_get, file_list_update,
    file_list_clone, metadata_get, metadata_clone, model_list_len, model_list_get, model_list_clone,
};
use crate::std_types::system_time_now;
use crate::text::str_equal;

verus! {

/// Raw file progress: (file name, bytes downloaded, total bytes, served from cache).
pub type RawFileProgress = (String, u64, u64, bool);

/// The raw progress of a model's files.
pub type RawModelFiles = Vec<RawFileProgress>;

/// Raw model progress: (model id, files).
pub type RawModelProgress = (String, RawModelFiles);

/// Raw progress of several models.
pub type RawProgressData = Vec<RawModelProgress>;

/// Key/value pairs collected into a map; a later pair overrides an earlier one
/// with the same key.
pub open spec fn pairs_to_map(pairs: Seq<(String, String)>) -> Map<Seq<char>, Seq<char>>
    decreases pairs.len(),
{
    if pairs.len() == 0 {
        Map::empty()
    } else {
        pairs_to_map(pairs.drop_last()).insert(pairs.last().0@, pairs.last().1@)
    }
}

/// The progress a raw file entry describes: its metadata maps "name" to its name.
pub open spec fn raw_file_view(f: RawFileProgress) -> FileProgressView {
    FileProgressView {
        file_id: no_metadata().insert("name"@, f.0@),
        file_name: f.0@,
        bytes_downloaded: f.1,
        total_bytes: f.2,
        is_cached: f.3,
        chunks_downloaded: Seq::empty(),
    }
}

/// Bytes downloaded over files.
pub open spec fn files_downloaded_sum(files: Seq<FileProgressView>) -> nat
    decreases files.len(),
{
    if files.len() == 0 {
        0
    } else {
        files_downloaded_sum(files.drop_last()) + files.last().bytes_downloaded as nat
    }
}

/// Total bytes over files.
pub open spec fn files_total_sum(files: Seq<FileProgressView>) -> nat
    decreases files.len(),
{
    if files.len() == 0 {
        0
    } else {
        files_total_sum(files.drop_last()) + files.last().total_bytes as nat
    }
}

/// Every file was served from cache.
pub open spec fn all_files_cached(files: Seq<FileProgressView>) -> bool {
    forall|i: int| 0 <= i < files.len() ==> (#[trigger] files[i]).is_cached
}

/// Bytes downloaded over models.
pub open spec fn models_downloaded_sum(models: Seq<ModelProgressView>) -> nat
    decreases models.len(),
{
    if models.len() == 0 {
        0
    } else {
        models_downloaded_sum(models.drop_last()) + models.last().bytes_downloaded as nat
    }
}

/// Total bytes over models.
pub open spec fn models_total_sum(models: Seq<ModelProgressView>) -> nat
    decreases models.len(),
{
    if models.len() == 0 {
        0
    } else {
        models_total_sum(models.drop_last()) + models.last().total_bytes as nat
    }
}

/// The views of raw file entries.
pub open spec fn raw_file_views(files: Seq<RawFileProgress>) -> Seq<FileProgressView> {
    files.map_values(|f: RawFileProgress| raw_file_view(f))
}

/// The model a raw model entry describes: byte counts summed over its files,
/// cached when all its files are, no metadata.
pub open spec fn raw_model_view(m: RawModelProgress) -> ModelProgressView {
    let files = raw_file_views(m.1@);
    ModelProgressView {
        model_id: m.0@,
        bytes_downloaded: files_downloaded_sum(files) as u64,
        total_bytes: files_total_sum(files) as u64,
        files: files,
        is_cached: all_files_cached(files),
        metadata: no_metadata(),
    }
}

/// The byte sums of every raw model fit in `u64`.
pub open spec fn raw_model_sums_fit(models: Seq<RawModelProgress>) -> bool {
    forall|i: int|
        0 <= i < models.len() ==> files_downloaded_sum(raw_file_views((#[trigger] models[i]).1@))
            <= u64::MAX && files_total_sum(raw_file_views(models[i].1@)) <= u64::MAX
}

proof fn lemma_file_sums_prefix(files: Seq<FileProgressView>, i: int)
    requires
        0 <= i <= files.len(),
    ensures
        files_downloaded_sum(files.take(i)) <= files_downloaded_sum(files),
        files_total_sum(files.take(i)) <= files_total_sum(files),
    decreases files.len(),
{
    if i == files.len() {
        assert(files.take(i) =~= files);
    } else {
        lemma_file_sums_prefix(files.drop_last(), i);
        assert(files.drop_last().take(i) =~= files.take(i));
    }
}

proof fn lemma_model_sums_prefix(models: Seq<ModelProgressView>, i: int)
    requires
        0 <= i <= models.len(),
    ensures
        models_downloaded_sum(models.take(i)) <= models_downloaded_sum(models),
        models_total_sum(models.take(i)) <= models_total_sum(models),
    decreases models.len(),
{
    if i == models.len() {
        assert(models.take(i) =~= models);
    } else {
        lemma_model_sums_prefix(models.drop_last(), i);
        assert(models.drop_last().take(i) =~= models.take(i));
    }
}

fn file_from_raw(f: &RawFileProgress) -> (r: ImmutableFileProgress)
    ensures
        r@ == raw_file_view(*f),
{
    let mut file_id = metadata_new();
    metadata_insert(&mut file_id, String::from_str("name"), f.0.clone());
    ImmutableFileProgress {
        file_id,
        file_name: f.0.clone(),
        bytes_downloaded: f.1,
        total_bytes: f.2,
        is_cached: f.3,
        chunks_downloaded: chunk_list_new(),
    }
}

fn model_from_raw(m: &RawModelProgress) -> (r: ImmutableModelProgress)
    requires
        files_downloaded_sum(raw_file_views(m.1@)) <= u64::MAX,
        files_total_sum(raw_file_views(m.1@)) <= u64::MAX,
    ensures
        r@ == raw_model_view(*m),
{
    let ghost views = raw_file_views(m.1@);
    let mut files = file_list_new();
    let mut downloaded: u64 = 0;
    let mut total: u64 = 0;
    let mut cached = true;
    let mut i: usize = 0;
    while i < m.1.len()
        invariant
            i <= m.1@.len(),
            views == raw_file_views(m.1@),
            file_views(file_entries_of(files)) == views.take(i as int),
            downloaded == files_downloaded_sum(views.take(i as int)),
            total == files_total_sum(views.take(i as int)),
            cached == all_files_cached(views.take(i as int)),
            files_downloaded_sum(views) <= u64::MAX,
            files_total_sum(views) <= u64::MAX,
        decreases m.1@.len() - i,
    {
        let f = file_from_raw(&m.1[i]);
        proof {
            assert(views.take(i + 1).drop_last() =~= views.take(i as int));
            lemma_file_sums_prefix(views, i + 1);
        }
        downloaded = downloaded + f.bytes_downloaded;
        total = total + f.total_bytes;
        cached = cached && f.is_cached;
        let ghost before = file_entries_of(files);
        file_list_push_back(&mut files, f);
        proof {
            assert(file_views(file_entries_of(files)) =~= views.take(i + 1));
            assert(cached == all_files_cached(views.take(i + 1))) by {
                let t = views.take(i + 1);
                if cached {
                    assert forall|k: int| 0 <= k < t.len() implies (#[trigger] t[k]).is_cached by {
                        if k < i {
                            assert(t[k] == views.take(i as int)[k]);
                        }
                    }
                } else if !all_files_cached(views.take(i as int)) {
                    let k = choose|k: int| 0 <= k < i && !(#[trigger] views.take(i as int)[k]).is_cached;
                    assert(t[k] == views.take(i as int)[k]);
                } else {
                    assert(!t[i as int].is_cached);
                }
            }
        }
        i = i + 1;
    }
    assert(views.take(m.1@.len() as int) =~= views);
    ImmutableModelProgress {
        model_id: m.0.clone(),
        bytes_downloaded: downloaded,
        total_bytes: total,
        files,
        is_cached: cached,
        metadata: metadata_new(),
    }
}

/// Create an immutable progress state from manifest metadata and raw model
/// progress: one model per raw entry, in order, and overall byte counts summed
/// over the models.
pub fn from_manifest_and_progress(manifest_data: &[(String, String)], model_data: &[RawModelProgress]) -> (s:
    ImmutableProgressState)
    requires
        raw_model_sums_fit(model_data@),
        models_downloaded_sum(model_data@.map_values(|m: RawModelProgress| raw_model_view(m)))
            <= u64::MAX,
        models_total_sum(model_data@.map_values(|m: RawModelProgress| raw_model_view(m)))
            <= u64::MAX,
    ensures
        s@.models == model_data@.map_values(|m: RawModelProgress| raw_model_view(m)),
        s@.overall_bytes_downloaded == models_downloaded_sum(s@.models),
        s@.overall_total_bytes == models_total_sum(s@.models),
        s@.manifest_data == pairs_to_map(manifest_data@),
{
    let mut manifest_map = metadata_new();
    let mut k: usize = 0;
    while k < manifest_data.len()
        invariant
            k <= manifest_data@.len(),
            metadata_entries(manifest_map) == pairs_to_map(manifest_data@.take(k as int)),
        decreases manifest_data@.len() - k,
    {
        assert(manifest_data@.take(k + 1).drop_last() =~= manifest_data@.take(k as int));
        metadata_insert(&mut manifest_map, manifest_data[k].0.clone(), manifest_data[k].1.clone());
        k = k + 1;
    }
    assert(manifest_data@.take(manifest_data@.len() as int) =~= manifest_data@);
    let ghost views = model_data@.map_values(|m: RawModelProgress| raw_model_view(m));
    let mut models = model_list_new();
    let mut downloaded: u64 = 0;
    let mut total: u64 = 0;
    let mut i: usize = 0;
    while i < model_data.len()
        invariant
            i <= model_data@.len(),
            views == model_data@.map_values(|m: RawModelProgress| raw_model_view(m)),
            raw_model_sums_fit(model_data@),
            model_views(model_entries_of(models)) == views.take(i as int),
            downloaded == models_downloaded_sum(views.take(i as int)),
            total == models_total_sum(views.take(i as int)),
            models_downloaded_sum(views) <= u64::MAX,
            models_total_sum(views) <= u64::MAX,
        decreases model_data@.len() - i,
    {
        proof {
            assert(raw_model_sums_fit(model_data@));
            let mi = model_data@[i as int];
            assert(files_downloaded_sum(raw_file_views(mi.1@)) <= u64::MAX);
        }
        let m = model_from_raw(&model_data[i]);
        proof {
            assert(views.take(i + 1).drop_last() =~= views.take(i as int));
            lemma_model_sums_prefix(views, i + 1);
        }
        downloaded = downloaded + m.bytes_downloaded;
        total = total + m.total_bytes;
        model_list_push_back(&mut models, m);
        assert(model_views(model_entries_of(models)) =~= views.take(i + 1));
        i = i + 1;
    }
    assert(views.take(model_data@.len() as int) =~= views);
    ImmutableProgressState {
        models,
        overall_bytes_downloaded: downloaded,
        overall_total_bytes: total,
        manifest_data: manifest_map,
        timestamp: system_time_now(),
    }
}


/// The name a file's metadata records under "name", if any.
pub open spec fn name_key(f: FileProgressView) -> Option<Seq<char>> {
    if f.file_id.contains_key("name"@) {
        Some(f.file_id["name"@])
    } else {
        None
    }
}

/// The first position of a file whose name key is `key`, if any.
pub open spec fn position_with_key(files: Seq<FileProgressView>, key: Option<Seq<char>>) -> Option<int>
    decreases files.len(),
{
    if files.len() == 0 {
        None
    } else {
        match position_with_key(files.drop_last(), key) {
            Some(i) => Some(i),
            None => if name_key(files.last()) == key {
                Some(files.len() - 1)
            } else {
                None
            },
        }
    }
}

/// The files after an update: the file with the same name key is replaced, or
/// the update is appended when there is none.
pub open spec fn files_after_update(files: Seq<FileProgressView>, update: FileProgressView) -> Seq<
    FileProgressView,
> {
    match position_with_key(files, name_key(update)) {
        Some(i) => files.update(i, update),
        None => files.push(update),
    }
}

/// A model after a file update: its byte counts and cache flag are recomputed
/// from its files.
pub open spec fn model_after_update(m: ModelProgressView, update: FileProgressView) -> ModelProgressView {
    let files = files_after_update(m.files, update);
    ModelProgressView {
        model_id: m.model_id,
        bytes_downloaded: files_downloaded_sum(files) as u64,
        total_bytes: files_total_sum(files) as u64,
        files: files,
        is_cached: all_files_cached(files),
        metadata: m.metadata,
    }
}

/// A new model holding just the updated file.
pub open spec fn new_model_with(model_id: Seq<char>, update: FileProgressView) -> ModelProgressView {
    ModelProgressView {
        model_id: model_id,
        bytes_downloaded: update.bytes_downloaded,
        total_bytes: update.total_bytes,
        files: seq![update],
        is_cached: update.is_cached,
        metadata: no_metadata(),
    }
}

/// Some model has this id.
pub open spec fn has_model(models: Seq<ModelProgressView>, model_id: Seq<char>) -> bool {
    exists|i: int| 0 <= i < models.len() && (#[trigger] models[i]).model_id == model_id
}

/// The models after a file update of model `model_id`: every model with that id
/// is updated; when there is none, a new model is appended.
pub open spec fn models_after_update(models: Seq<ModelProgressView>, model_id: Seq<char>, update: FileProgressView) -> Seq<ModelProgressView> {
    if has_model(models, model_id) {
        models.map_values(
            |m: ModelProgressView|
                if m.model_id == model_id {
                    model_after_update(m, update)
                } else {
                    m
                },
        )
    } else {
        models.push(new_model_with(model_id, update))
    }
}

/// The byte sums of every updated model fit in `u64`.
pub open spec fn update_sums_fit(models: Seq<ModelProgressView>, model_id: Seq<char>, update: FileProgressView) -> bool {
    forall|i: int|
        0 <= i < models.len() && (#[trigger] models[i]).model_id == model_id ==> files_downloaded_sum(
            files_after_update(models[i].files, update),
        ) <= u64::MAX && files_total_sum(files_after_update(models[i].files, update)) <= u64::MAX
}

fn same_name_key(a: Option<&String>, b: Option<&String>) -> (r: bool)
    ensures
        r == (match (a, b) {
            (Some(x), Some(y)) => x@ == y@,
            (None, None) => true,
            _ => false,
        }),
{
    match (a, b) {
        (Some(x), Some(y)) => str_equal(x.as_str(), y.as_str()),
        (None, None) => true,
        _ => false,
    }
}

fn name_key_of(f: &ImmutableFileProgress) -> (r: Option<&String>)
    ensures
        match r {
            Some(x) => name_key(f@) == Some(x@),
            None => name_key(f@) is None,
        },
{
    metadata_get(&f.file_id, "name")
}

fn file_sums(files: &im::Vector<ImmutableFileProgress>) -> (r: (u64, u64, bool))
    requires
        files_downloaded_sum(file_views(file_entries_of(*files))) <= u64::MAX,
        files_total_sum(file_views(file_entries_of(*files))) <= u64::MAX,
    ensures
        r.0 == files_downloaded_sum(file_views(file_entries_of(*files))),
        r.1 == files_total_sum(file_views(file_entries_of(*files))),
        r.2 == all_files_cached(file_views(file_entries_of(*files))),
{
    let ghost views = file_views(file_entries_of(*files));
    let n = file_list_len(files);
    let mut downloaded: u64 = 0;
    let mut total: u64 = 0;
    let mut cached = true;
    let mut i: usize = 0;
    while i < n
        invariant
            i <= n,
            n == views.len(),
            views == file_views(file_entries_of(*files)),
            downloaded == files_downloaded_sum(views.take(i as int)),
            total == files_total_sum(views.take(i as int)),
            cached == all_files_cached(views.take(i as int)),
            files_downloaded_sum(views) <= u64::MAX,
            files_total_sum(views) <= u64::MAX,
        decreases n - i,
    {
        let f = file_list_get(files, i).unwrap();
        proof {
            assert(views.take(i + 1).drop_last() =~= views.take(i as int));
            lemma_file_sums_prefix(views, i + 1);
        }
        downloaded = downloaded + f.bytes_downloaded;
        total = total + f.total_bytes;
        cached = cached && f.is_cached;
        proof {
            assert(cached == all_files_cached(views.take(i + 1))) by {
                let t = views.take(i + 1);
                if cached {
                    assert forall|k: int| 0 <= k < t.len() implies (#[trigger] t[k]).is_cached by {
                        if k < i {
                            assert(t[k] == views.take(i as int)[k]);
                        }
                    }
                } else if !all_files_cached(views.take(i as int)) {
                    let k = choose|k: int| 0 <= k < i && !(#[trigger] views.take(i as int)[k]).is_cached;
                    assert(t[k] == views.take(i as int)[k]);
                } else {
                    assert(!t[i as int].is_cached);
                }
            }
        }
        i = i + 1;
    }
    assert(views.take(n as int) =~= views);
    (downloaded, total, cached)
}

fn update_model(m: &ImmutableModelProgress, update: &ImmutableFileProgress) -> (r: ImmutableModelProgress)
    requires
        files_downloaded_sum(files_after_update(m@.files, update@)) <= u64::MAX,
        files_total_sum(files_after_update(m@.files, update@)) <= u64::MAX,
    ensures
        r@ == model_after_update(m@, update@),
{
    let ghost views = m@.files;
    let key = name_key_of(update);
    let n = file_list_len(&m.files);
    let mut pos: Option<usize> = None;
    let mut i: usize = 0;
    while i < n
        invariant
            i <= n,
            n == views.len(),
            views == m@.files,
            match key {
                Some(x) => name_key(update@) == Some(x@),
                None => name_key(update@) is None,
            },
            pos == match position_with_key(views.take(i as int), name_key(update@)) {
                Some(p) => Some(p as usize),
                None => None::<usize>,
            },
            position_with_key(views.take(i as int), name_key(update@)) matches Some(p) ==> 0 <= p < i,
        decreases n - i,
    {
        let f = file_list_get(&m.files, i).unwrap();
        proof {
            assert(views.take(i + 1).drop_last() =~= views.take(i as int));
            assert(views.take(i + 1).last() == f@);
        }
        if pos.is_none() && same_name_key(name_key_of(f), key) {
            pos = Some(i);
        }
        i = i + 1;
    }
    assert(views.take(n as int) =~= views);
    let files = match pos {
        Some(p) => file_list_update(&m.files, p, update.clone()),
        None => {
            let mut c = file_list_clone(&m.files);
            file_list_push_back(&mut c, update.clone());
            c
        },
    };
    assert(file_views(file_entries_of(files)) =~= files_after_update(views, update@));
    let (downloaded, total, cached) = file_sums(&files);
    ImmutableModelProgress {
        model_id: m.model_id.clone(),
        bytes_downloaded: downloaded,
        total_bytes: total,
        files,
        is_cached: cached,
        metadata: metadata_clone(&m.metadata),
    }
}

fn model_sums(models: &im::Vector<ImmutableModelProgress>) -> (r: (u64, u64))
    requires
        models_downloaded_sum(model_views(model_entries_of(*models))) <= u64::MAX,
        models_total_sum(model_views(model_entries_of(*models))) <= u64::MAX,
    ensures
        r.0 == models_downloaded_sum(model_views(model_entries_of(*models))),
        r.1 == models_total_sum(model_views(model_entries_of(*models))),
{
    let ghost views = model_views(model_entries_of(*models));
    let n = model_list_len(models);
    let mut downloaded: u64 = 0;
    let mut total: u64 = 0;
    let mut i: usize = 0;
    while i < n
        invariant
            i <= n,
            n == views.len(),
            views == model_views(model_entries_of(*models)),
            downloaded == models_downloaded_sum(views.take(i as int)),
            total == models_total_sum(views.take(i as int)),
            models_downloaded_sum(views) <= u64::MAX,
            models_total_sum(views) <= u64::MAX,
        decreases n - i,
    {
        let m = model_list_get(models, i).unwrap();
        proof {
            assert(views.take(i + 1).drop_last() =~= views.take(i as int));
            lemma_model_sums_prefix(views, i + 1);
        }
        downloaded = downloaded + m.bytes_downloaded;
        total = total + m.total_bytes;
        i = i + 1;
    }
    assert(views.take(n as int) =~= views);
    (downloaded, total)
}

/// Update a state with new progress of one file of model `model_id`: in every
/// model with that id the file with the same metadata "name" is replaced (or the
/// file is appended) and the model's byte counts are recomputed; when no model
/// has the id, a model holding just this file is appended. Overall byte counts
/// are recomputed over the models.
pub fn with_updated_file(state: ImmutableProgressState, model_id: &str, file_update: ImmutableFileProgress) -> (s:
    ImmutableProgressState)
    requires
        update_sums_fit(state@.models, model_id@, file_update@),
        models_downloaded_sum(models_after_update(state@.models, model_id@, file_update@)) <= u64::MAX,
        models_total_sum(models_after_update(state@.models, model_id@, file_update@)) <= u64::MAX,
    ensures
        s@.models == models_after_update(state@.models, model_id@, file_update@),
        s@.overall_bytes_downloaded == models_downloaded_sum(s@.models),
        s@.overall_total_bytes == models_total_sum(s@.models),
        s@.manifest_data == state@.manifest_data,
{
    let ghost views = state@.models;
    let n = model_list_len(&state.models);
    let mut found = false;
    let mut i: usize = 0;
    while i < n
        invariant
            i <= n,
            n == views.len(),
            views == state@.models,
            found == exists|k: int| 0 <= k < i && (#[trigger] views[k]).model_id == model_id@,
        decreases n - i,
    {
        let m = model_list_get(&state.models, i).unwrap();
        assert(views[i as int] == m@);
        if str_equal(m.model_id.as_str(), model_id) {
            found = true;
        }
        i = i + 1;
    }
    let mut models = model_list_new();
    if found {
        let ghost target = models_after_update(views, model_id@, file_update@);
        let mut j: usize = 0;
        while j < n
            invariant
                j <= n,
                n == views.len(),
                views == state@.models,
                has_model(views, model_id@),
                target == models_after_update(views, model_id@, file_update@),
                update_sums_fit(views, model_id@, file_update@),
                model_views(model_entries_of(models)) == target.take(j as int),
            decreases n - j,
        {
            let m = model_list_get(&state.models, j).unwrap();
            assert(views[j as int] == m@);
            let ghost before = model_entries_of(models);
            if str_equal(m.model_id.as_str(), model_id) {
                let u = update_model(m, &file_update);
                assert(target[j as int] == u@);
                model_list_push_back(&mut models, u);
            } else {
                let c = m.clone();
                assert(target[j as int] == c@);
                model_list_push_back(&mut models, c);
            }
            assert(model_views(model_entries_of(models)) =~= model_views(before).push(target[j as int]));
            assert(target.take(j + 1) =~= target.take(j as int).push(target[j as int]));
            assert(model_views(model_entries_of(models)) =~= target.take(j + 1));
            j = j + 1;
        }
        assert(target.take(n as int) =~= target);
    } else {
        models = model_list_clone(&state.models);
        let mut files = file_list_new();
        let is_cached = file_update.is_cached;
        let bytes_downloaded = file_update.bytes_downloaded;
        let total_bytes = file_update.total_bytes;
        file_list_push_back(&mut files, file_update);
        let new_model = ImmutableModelProgress {
            model_id: String::from_str(model_id),
            bytes_downloaded,
            total_bytes,
            files,
            is_cached,
            metadata: metadata_new(),
        };
        assert(!has_model(views, model_id@));
        assert(new_model@ == new_model_with(model_id@, file_update@)) by {
            assert(new_model@.files =~= seq![file_update@]);
        }
        let ghost before = model_entries_of(models);
        model_list_push_back(&mut models, new_model);
        assert(model_views(model_entries_of(models)) =~= model_views(before).push(new_model_with(model_id@, file_update@)));
        assert(model_views(model_entries_of(models)) =~= models_after_update(views, model_id@, file_update@));
    }
    let (downloaded, total) = model_sums(&models);
    ImmutableProgressState {
        models,
        overall_bytes_downloaded: downloaded,
        overall_total_bytes: total,
        manifest_data: state.manifest_data,
        timestamp: system_time_now(),
    }
}

/// Convert raw progress data into a progress state with no manifest metadata.
pub fn from_raw_progress_data(model_data: RawProgressData) -> (s: ImmutableProgressState)
    requires
        raw_model_sums_fit(model_data@),
        models_downloaded_sum(model_data@.map_values(|m: RawModelProgress| raw_model_view(m)))
            <= u64::MAX,
        models_total_sum(model_data@.map_values(|m: RawModelProgress| raw_model_view(m)))
            <= u64::MAX,
    ensures
        s@.models == model_data@.map_values(|m: RawModelProgress| raw_model_view(m)),
        s@.overall_bytes_downloaded == models_downloaded_sum(s@.models),
        s@.overall_total_bytes == models_total_sum(s@.models),
        s@.manifest_data == no_metadata(),
{
    let no_pairs: Vec<(String, String)> = Vec::new();
    let s = from_manifest_and_progress(no_pairs.as_slice(), model_data.as_slice());
    assert(pairs_to_map(no_pairs@) =~= no_metadata());
    s
}

} // verus!
