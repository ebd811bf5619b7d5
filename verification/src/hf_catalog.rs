//! Models of the Hugging Face catalogue.

use crate::client_config::settings;
use crate::json;
use crate::text;
use vstd::prelude::*;

verus! {

/// The form of a model that is preferred.
pub const DEFAULT_QUANT: &'static str = "Q4_K_M";

/// How many models of an answer are looked at.
pub const GGUF_PROBE_LIMIT: usize = 10;

/// A model of the catalogue.
#[derive(Debug, PartialEq)]
pub struct HfCatalogEntry {
    pub name: String,
    pub description: Option<String>,
    pub repo: String,
    pub quants: Vec<String>,
    pub default_quant: String,
    pub catalog: String,
}

/// The forms of a model, in the order of their names.
pub open spec fn quants() -> Seq<Seq<char>> {
    seq![
        "F16"@,
        "F32"@,
        "Q2_K"@,
        "Q3_K_L"@,
        "Q3_K_M"@,
        "Q3_K_S"@,
        "Q4_0"@,
        "Q4_1"@,
        "Q4_K_M"@,
        "Q4_K_S"@,
        "Q5_0"@,
        "Q5_1"@,
        "Q5_K_M"@,
        "Q5_K_S"@,
        "Q6_K"@,
        "Q8_0"@,
    ]
}

fn quant_list() -> (r: Vec<&'static str>)
    ensures
        r@.map_values(|s: &str| s@) == quants(),
{
    let v = vec![
        "F16",
        "F32",
        "Q2_K",
        "Q3_K_L",
        "Q3_K_M",
        "Q3_K_S",
        "Q4_0",
        "Q4_1",
        "Q4_K_M",
        "Q4_K_S",
        "Q5_0",
        "Q5_1",
        "Q5_K_M",
        "Q5_K_S",
        "Q6_K",
        "Q8_0",
    ];
    v
}

/// The forms of a model, in the order in which a file name is searched for them.
pub open spec fn quants_by_rank() -> Seq<Seq<char>> {
    seq![
        "Q8_0"@,
        "Q6_K"@,
        "Q5_K_M"@,
        "Q5_K_S"@,
        "Q5_1"@,
        "Q5_0"@,
        "Q4_K_M"@,
        "Q4_K_S"@,
        "Q4_1"@,
        "Q4_0"@,
        "Q3_K_L"@,
        "Q3_K_M"@,
        "Q3_K_S"@,
        "Q2_K"@,
        "F16"@,
        "F32"@,
    ]
}

fn ranked_list() -> (r: Vec<&'static str>)
    ensures
        r@.map_values(|s: &str| s@) == quants_by_rank(),
{
    let v = vec![
        "Q8_0",
        "Q6_K",
        "Q5_K_M",
        "Q5_K_S",
        "Q5_1",
        "Q5_0",
        "Q4_K_M",
        "Q4_K_S",
        "Q4_1",
        "Q4_0",
        "Q3_K_L",
        "Q3_K_M",
        "Q3_K_S",
        "Q2_K",
        "F16",
        "F32",
    ];
    v
}

/// The first of `list` that stands in `upper`.
pub open spec fn first_in(upper: Seq<char>, list: Seq<Seq<char>>) -> Option<Seq<char>>
    decreases list.len(),
{
    if list.len() == 0 {
        None
    } else if text::has(upper, list[0]) {
        Some(list[0])
    } else {
        first_in(upper, list.skip(1))
    }
}

/// The form that a file name gives.
pub open spec fn inferred_quant(name: Seq<char>) -> Option<Seq<char>> {
    first_in(text::ascii_upper(name), quants_by_rank())
}

fn infer_quant_from_filename(name: &str) -> (r: Option<&'static str>)
    ensures
        match r {
            Some(q) => inferred_quant(name@) == Some(q@),
            None => inferred_quant(name@) is None,
        },
{
    let upper = text::to_ascii_upper(name);
    let list = ranked_list();
    let ghost lv = quants_by_rank();
    assert(lv.skip(0) =~= lv);
    for i in 0..list.len()
        invariant
            list@.map_values(|s: &str| s@) == lv,
            upper@ == text::ascii_upper(name@),
            lv == quants_by_rank(),
            inferred_quant(name@) == first_in(upper@, lv.skip(i as int)),
    {
        assert(lv.skip(i as int)[0] == list@[i as int]@);
        assert(lv.skip(i as int).skip(1) =~= lv.skip(i as int + 1));
        if text::contains(&upper, list[i]) {
            return Some(list[i]);
        }
    }
    None
}

/// Whether a piece of a name, between its hyphens and underscores, is `q`.
pub open spec fn has_piece(name: Seq<char>, q: Seq<char>) -> bool {
    exists|i: int|
        0 <= i < text::split_on(name, '-').len() && #[trigger] piece_in(
            text::split_on(name, '-')[i],
            q,
        )
}

/// Whether a piece of `part`, between its underscores, is `q` in capitals.
pub open spec fn piece_in(part: Seq<char>, q: Seq<char>) -> bool {
    exists|j: int|
        0 <= j < text::split_on(part, '_').len() && text::ascii_upper(
            #[trigger] text::split_on(part, '_')[j],
        ) == q
}

fn part_has(part: &str, q: &str) -> (r: bool)
    ensures
        r == piece_in(part@, q@),
{
    let pieces = text::split(part, '_');
    let ghost pv = text::split_on(part@, '_');
    for j in 0..pieces.len()
        invariant
            text::views(pieces@) == pv,
            pv == text::split_on(part@, '_'),
            forall|k: int| 0 <= k < j ==> text::ascii_upper(#[trigger] pv[k]) != q@,
    {
        assert(pv[j as int] == pieces@[j as int]@);
        if text::str_eq(&text::to_ascii_upper(&pieces[j]), q) {
            return true;
        }
    }
    false
}

fn name_has(name: &str, q: &str) -> (r: bool)
    ensures
        r == has_piece(name@, q@),
{
    let parts = text::split(name, '-');
    let ghost pv = text::split_on(name@, '-');
    for i in 0..parts.len()
        invariant
            text::views(parts@) == pv,
            pv == text::split_on(name@, '-'),
            forall|k: int| 0 <= k < i ==> !piece_in(#[trigger] pv[k], q@),
    {
        assert(pv[i as int] == parts@[i as int]@);
        if part_has(&parts[i], q) {
            return true;
        }
    }
    false
}

/// Whether the file `name` holds a model in the form `q`.
pub open spec fn names_quant(name: Seq<char>, q: Seq<char>) -> bool {
    !text::has(text::ascii_lower(name), "mmproj"@) && (has_piece(name, q) || inferred_quant(name)
        == Some(q))
}

/// Whether one of the files holds a model in the form `q`.
pub open spec fn offers(names: Seq<Seq<char>>, q: Seq<char>) -> bool {
    exists|i: int| 0 <= i < names.len() && names_quant(#[trigger] names[i], q)
}

fn list_offers(names: &Vec<String>, q: &str) -> (r: bool)
    ensures
        r == offers(text::views(names@), q@),
{
    let ghost nv = text::views(names@);
    for i in 0..names.len()
        invariant
            nv == text::views(names@),
            forall|k: int| 0 <= k < i ==> !names_quant(#[trigger] nv[k], q@),
    {
        assert(nv[i as int] == names@[i as int]@);
        if !text::contains(&text::to_ascii_lower(&names[i]), "mmproj") {
            let inferred = match infer_quant_from_filename(&names[i]) {
                Some(x) => text::str_eq(x, q),
                None => false,
            };
            if inferred || name_has(&names[i], q) {
                return true;
            }
        }
    }
    false
}

/// The forms in which the files hold a model, in the order of their names.
pub open spec fn offered(names: Seq<Seq<char>>) -> Seq<Seq<char>> {
    quants().filter(|q: Seq<char>| offers(names, q))
}

/// The forms in which the files hold a model, in the order of their names.
pub fn extract_quants_from_gguf_names(names: &Vec<String>) -> (r: Vec<String>)
    ensures
        text::views(r@) == offered(text::views(names@)),
{
    let list = quant_list();
    let ghost lv = quants();
    let ghost nv = text::views(names@);
    let ghost keep = |q: Seq<char>| offers(nv, q);
    let mut out: Vec<String> = Vec::new();
    reveal(Seq::filter);
    assert(text::views(out@) =~= lv.take(0).filter(keep));
    for i in 0..list.len()
        invariant
            list@.map_values(|s: &str| s@) == lv,
            nv == text::views(names@),
            keep == (|q: Seq<char>| offers(nv, q)),
            text::views(out@) == lv.take(i as int).filter(keep),
    {
        reveal(Seq::filter);
        proof {
            assert(lv.take(i as int + 1).drop_last() =~= lv.take(i as int));
            assert(lv[i as int] == list@[i as int]@);
        }
        if list_offers(names, list[i]) {
            let item = text::copy(list[i]);
            proof {
                text::lemma_views_push(out@, item);
            }
            out.push(item);
        }
    }
    assert(lv.take(lv.len() as int) =~= lv);
    out
}

/// The form of `q` that is used: the preferred one, or else the first.
pub open spec fn default_of(q: Seq<Seq<char>>) -> Seq<char>
    decreases q.len(),
{
    match preferred(q) {
        Some(s) => s,
        None => if q.len() > 0 {
            q[0]
        } else {
            DEFAULT_QUANT@
        },
    }
}

/// The first of `q` that is the preferred form, whatever the case of its letters.
pub open spec fn preferred(q: Seq<Seq<char>>) -> Option<Seq<char>>
    decreases q.len(),
{
    if q.len() == 0 {
        None
    } else if text::ascii_lower(q[0]) == text::ascii_lower(DEFAULT_QUANT@) {
        Some(q[0])
    } else {
        preferred(q.skip(1))
    }
}

/// The form of `quants` that is used: the preferred one, or else the first.
pub fn default_quant_for(quants: &Vec<String>) -> (r: String)
    ensures
        r@ == default_of(text::views(quants@)),
{
    let ghost qv = text::views(quants@);
    assert(qv.skip(0) =~= qv);
    for i in 0..quants.len()
        invariant
            qv == text::views(quants@),
            preferred(qv) == preferred(qv.skip(i as int)),
    {
        assert(qv.skip(i as int)[0] == quants@[i as int]@);
        assert(qv.skip(i as int).skip(1) =~= qv.skip(i as int + 1));
        if text::eq_ignore_ascii_case(&quants[i], DEFAULT_QUANT) {
            return text::copy(&quants[i]);
        }
    }
    if quants.len() > 0 {
        assert(qv[0] == quants@[0]@);
        text::copy(&quants[0])
    } else {
        text::copy(DEFAULT_QUANT)
    }
}

/// Whether every piece is filled.
pub open spec fn all_filled(parts: Seq<Seq<char>>) -> bool {
    forall|i: int| 0 <= i < parts.len() ==> (#[trigger] parts[i]).len() > 0
}

/// Whether `repo` names a repository: an owner and a name, with a slash between
/// them.
pub open spec fn is_repo(repo: Seq<char>) -> bool {
    text::split_on(repo, '/').len() == 2 && all_filled(text::split_on(repo, '/'))
}

/// Whether `repo` names a repository: an owner and a name, with a slash between
/// them.
pub fn validate_repo(repo: &str) -> (r: Result<(), String>)
    ensures
        match r {
            Ok(_) => is_repo(repo@),
            Err(m) => !is_repo(repo@) && m@ == "invalid huggingface repo id"@,
        },
{
    let parts = text::split(repo, '/');
    let ghost pv = text::split_on(repo@, '/');
    assert(pv.len() == parts@.len());
    if parts.len() == 2 {
        assert(pv[0] == parts@[0]@ && pv[1] == parts@[1]@);
        if !parts[0].as_str().is_empty() && !parts[1].as_str().is_empty() {
            return Ok(());
        }
    }
    Err(text::copy("invalid huggingface repo id"))
}

/// The access token in a setting, where it is not blank.
pub fn effective_hf_token(setting: Option<&str>) -> (r: Option<String>)
    ensures
        text::opt_view(r) == settings::unless_blank(json::opt_str(setting)),
{
    match setting {
        Some(s) => if settings::is_filled(setting) {
            Some(text::copy(s))
        } else {
            None
        },
        None => None,
    }
}

/// Whether a file holds a model.
pub open spec fn is_model_file(name: Seq<char>) -> bool {
    text::ends(name, ".gguf"@) && !text::has(text::ascii_lower(name), "mmproj"@)
}

/// The files that hold a model.
pub fn gguf_filenames(files: Vec<String>) -> (r: Vec<String>)
    ensures
        text::views(r@) == text::views(files@).filter(|n: Seq<char>| is_model_file(n)),
{
    let ghost fv = text::views(files@);
    let ghost keep = |n: Seq<char>| is_model_file(n);
    let mut out: Vec<String> = Vec::new();
    reveal(Seq::filter);
    assert(text::views(out@) =~= fv.take(0).filter(keep));
    for i in 0..files.len()
        invariant
            fv == text::views(files@),
            keep == (|n: Seq<char>| is_model_file(n)),
            text::views(out@) == fv.take(i as int).filter(keep),
    {
        reveal(Seq::filter);
        proof {
            assert(fv.take(i as int + 1).drop_last() =~= fv.take(i as int));
            assert(fv[i as int] == files@[i as int]@);
        }
        if text::ends_with(&files[i], ".gguf") && !text::contains(
            &text::to_ascii_lower(&files[i]),
            "mmproj",
        ) {
            let item = text::copy(&files[i]);
            proof {
                text::lemma_views_push(out@, item);
            }
            out.push(item);
        }
    }
    assert(fv.take(fv.len() as int) =~= fv);
    out
}

/// The entry for the repository `repo` with the model files `ggufs`; none where
/// they hold no model in a form that is known.
pub fn catalog_entry(repo: &str, ggufs: &Vec<String>, description: Option<String>) -> (r: Option<
    HfCatalogEntry,
>)
    ensures
        ({
            let q = offered(text::views(ggufs@));
            if q.len() == 0 {
                r is None
            } else {
                r matches Some(e) && e.name@ == repo@ && e.repo@ == repo@ && e.description
                    == described(description) && text::views(e.quants@) == q && e.default_quant@
                    == default_of(q) && e.catalog@ == "huggingface"@
            }
        }),
{
    let quants = extract_quants_from_gguf_names(ggufs);
    assert(text::views(quants@).len() == quants@.len());
    if quants.len() == 0 {
        return None;
    }
    let default_quant = default_quant_for(&quants);
    let description = match description {
        Some(d) => if text::trim(&d).as_str().is_empty() {
            None
        } else {
            Some(d)
        },
        None => None,
    };
    Some(
        HfCatalogEntry {
            name: text::copy(repo),
            description,
            repo: text::copy(repo),
            quants,
            default_quant,
            catalog: text::copy("huggingface"),
        },
    )
}

/// A description, where it is not blank.
pub open spec fn described(d: Option<String>) -> Option<String> {
    match d {
        Some(s) => if text::trimmed(s@).len() > 0 {
            d
        } else {
            None
        },
        None => None,
    }
}

/// What is searched for: the query without the white space around it, where it is not
/// blank. A blank one finds nothing.
pub fn search_query(q: &str) -> (r: Option<String>)
    ensures
        text::opt_view(r) == settings::filled(Some(q@)),
{
    settings::env_non_empty(Some(q))
}

/// The repository of a model that a search found: its model id, or else its id.
pub fn repo_of(model_id: Option<String>, id: String) -> (r: String)
    ensures
        r == match model_id {
            Some(m) => m,
            None => id,
        },
{
    match model_id {
        Some(m) => m,
        None => id,
    }
}

/// How many models a search gives at most: from 1 to 50.
pub fn search_limit(limit: i64) -> (r: usize)
    ensures
        r == if limit < 1 {
            1int
        } else if limit > 50 {
            50
        } else {
            limit as int
        },
{
    if limit < 1 {
        1
    } else if limit > 50 {
        50
    } else {
        limit as usize
    }
}

/// Whether a search goes on, after it looked at `seen` models and found `found`.
pub fn search_goes_on(seen: usize, found: usize, limit: usize) -> (r: bool)
    ensures
        r == (seen < GGUF_PROBE_LIMIT && found < limit),
{
    seen < GGUF_PROBE_LIMIT && found < limit
}

/// A form is offered where it is known and a file holds a model in it, and
/// nowhere else.
pub proof fn law_offered_forms_are_known(names: Seq<Seq<char>>, q: Seq<char>)
    ensures
        offered(names).contains(q) <==> quants().contains(q) && offers(names, q),
{
    let keep = |x: Seq<char>| offers(names, x);
    broadcast use vstd::seq_lib::group_filter_ensures;

    if offered(names).contains(q) {
        quants().lemma_filter_contains_rev(keep, q);
        let i = choose|i: int| 0 <= i < offered(names).len() && offered(names)[i] == q;
        assert(keep(quants().filter(keep)[i]));
    }
    if quants().contains(q) && offers(names, q) {
        let i = choose|i: int| 0 <= i < quants().len() && quants()[i] == q;
        assert(keep(quants()[i]));
        assert(quants().filter(keep).contains(quants()[i]));
    }
}

/// Whether every one of `list` comes before all that follow it.
pub open spec fn ascending(list: Seq<Seq<char>>) -> bool {
    forall|i: int, j: int|
        0 <= i < j < list.len() ==> text::before(#[trigger] list[i], #[trigger] list[j])
}

proof fn lemma_filter_ascending(list: Seq<Seq<char>>, keep: spec_fn(Seq<char>) -> bool)
    requires
        ascending(list),
    ensures
        ascending(list.filter(keep)),
        forall|i: int|
            0 <= i < list.filter(keep).len() ==> list.contains(#[trigger] list.filter(keep)[i]),
    decreases list.len(),
{
    reveal(Seq::filter);
    if list.len() > 0 {
        let front = list.drop_last();
        assert forall|i: int, j: int| 0 <= i < j < front.len() implies text::before(
            #[trigger] front[i],
            #[trigger] front[j],
        ) by {
            assert(front[i] == list[i] && front[j] == list[j]);
        }
        lemma_filter_ascending(front, keep);
        let f = front.filter(keep);
        let all = list.filter(keep);
        assert forall|i: int| 0 <= i < all.len() implies list.contains(#[trigger] all[i]) by {
            if i < f.len() {
                assert(front.contains(f[i]));
                let k = choose|k: int| 0 <= k < front.len() && front[k] == f[i];
                assert(list[k] == f[i]);
            } else {
                assert(list[list.len() - 1] == all[i]);
            }
        }
        assert forall|i: int, j: int| 0 <= i < j < all.len() implies text::before(
            #[trigger] all[i],
            #[trigger] all[j],
        ) by {
            assert(all[i] == f[i]);
            if j < f.len() {
                assert(all[j] == f[j]);
            } else {
                assert(front.contains(f[i]));
                let k = choose|k: int| 0 <= k < front.len() && front[k] == f[i];
                assert(list[k] == f[i]);
                assert(all[j] == list[list.len() - 1]);
            }
        }
    }
}

proof fn lemma_before_at(a: Seq<char>, b: Seq<char>, k: int)
    requires
        0 <= k < a.len(),
        k < b.len(),
        a.take(k) =~= b.take(k),
        a[k] < b[k],
    ensures
        text::before(a, b),
    decreases k,
{
    if k > 0 {
        assert(a[0] == a.take(k)[0] && b[0] == b.take(k)[0]);
        assert(a.skip(1).take(k - 1) =~= a.take(k).skip(1));
        assert(b.skip(1).take(k - 1) =~= b.take(k).skip(1));
        lemma_before_at(a.skip(1), b.skip(1), k - 1);
    }
}

proof fn lemma_neighbours_ascend(list: Seq<Seq<char>>, i: int, j: int)
    requires
        0 <= i < j < list.len(),
        forall|k: int|
            #![trigger list[k]]
            0 <= k < list.len() - 1 ==> text::before(list[k], list[k + 1]),
    ensures
        text::before(list[i], list[j]),
    decreases j - i,
{
    assert(text::before(list[i], list[i + 1]));
    if i + 1 < j {
        lemma_neighbours_ascend(list, i + 1, j);
        text::lemma_before_chain(list[i], list[i + 1], list[j]);
    }
}

proof fn lemma_quants_ascend()
    ensures
        ascending(quants()),
{
    reveal_strlit("F16");
    reveal_strlit("F32");
    reveal_strlit("Q2_K");
    reveal_strlit("Q3_K_L");
    reveal_strlit("Q3_K_M");
    reveal_strlit("Q3_K_S");
    reveal_strlit("Q4_0");
    reveal_strlit("Q4_1");
    reveal_strlit("Q4_K_M");
    reveal_strlit("Q4_K_S");
    reveal_strlit("Q5_0");
    reveal_strlit("Q5_1");
    reveal_strlit("Q5_K_M");
    reveal_strlit("Q5_K_S");
    reveal_strlit("Q6_K");
    reveal_strlit("Q8_0");
    lemma_before_at("F16"@, "F32"@, 1);
    lemma_before_at("F32"@, "Q2_K"@, 0);
    lemma_before_at("Q2_K"@, "Q3_K_L"@, 1);
    lemma_before_at("Q3_K_L"@, "Q3_K_M"@, 5);
    lemma_before_at("Q3_K_M"@, "Q3_K_S"@, 5);
    lemma_before_at("Q3_K_S"@, "Q4_0"@, 1);
    lemma_before_at("Q4_0"@, "Q4_1"@, 3);
    lemma_before_at("Q4_1"@, "Q4_K_M"@, 3);
    lemma_before_at("Q4_K_M"@, "Q4_K_S"@, 5);
    lemma_before_at("Q4_K_S"@, "Q5_0"@, 1);
    lemma_before_at("Q5_0"@, "Q5_1"@, 3);
    lemma_before_at("Q5_1"@, "Q5_K_M"@, 3);
    lemma_before_at("Q5_K_M"@, "Q5_K_S"@, 5);
    lemma_before_at("Q5_K_S"@, "Q6_K"@, 1);
    lemma_before_at("Q6_K"@, "Q8_0"@, 1);
    let list = quants();
    assert forall|i: int, j: int| 0 <= i < j < list.len() implies text::before(
        #[trigger] list[i],
        #[trigger] list[j],
    ) by {
        lemma_neighbours_ascend(list, i, j);
    }
}

/// The forms are offered in the order of their names, each once.
pub proof fn law_offered_forms_ascend(names: Seq<Seq<char>>)
    ensures
        ascending(offered(names)),
        forall|i: int, j: int|
            0 <= i < j < offered(names).len() ==> #[trigger] offered(names)[i]
                != #[trigger] offered(names)[j],
{
    lemma_quants_ascend();
    lemma_filter_ascending(quants(), |q: Seq<char>| offers(names, q));
    let list = offered(names);
    assert forall|i: int, j: int| 0 <= i < j < list.len() implies #[trigger] list[i]
        != #[trigger] list[j] by {
        assert(text::before(list[i], list[j]));
        text::lemma_before_self(list[i]);
    }
}

/// Which forms are offered depends on which files there are, not on their order nor
/// on how often one is named.
pub proof fn law_order_of_files_is_no_matter(a: Seq<Seq<char>>, b: Seq<Seq<char>>)
    requires
        forall|n: Seq<char>| #[trigger] a.contains(n) <==> b.contains(n),
    ensures
        offered(a) == offered(b),
{
    assert forall|q: Seq<char>| offers(a, q) == offers(b, q) by {
        if offers(a, q) {
            let i = choose|i: int| 0 <= i < a.len() && names_quant(#[trigger] a[i], q);
            assert(a.contains(a[i]));
            let k = choose|k: int| 0 <= k < b.len() && b[k] == a[i];
            assert(names_quant(b[k], q));
        }
        if offers(b, q) {
            let i = choose|i: int| 0 <= i < b.len() && names_quant(#[trigger] b[i], q);
            assert(b.contains(b[i]));
            assert(a.contains(b[i]));
            let k = choose|k: int| 0 <= k < a.len() && a[k] == b[i];
            assert(names_quant(a[k], q));
        }
    }
    assert((|q: Seq<char>| offers(a, q)) =~= (|q: Seq<char>| offers(b, q)));
}

proof fn lemma_no_separator(s: Seq<char>, c: char)
    ensures
        text::split_on(s, c).len() > 0,
        forall|i: int|
            0 <= i < text::split_on(s, c).len() ==> !(#[trigger] text::split_on(s, c)[i]).contains(
                c,
            ),
    decreases s.len(),
{
    if s.len() > 0 {
        let front = text::split_on(s.drop_last(), c);
        lemma_no_separator(s.drop_last(), c);
        let all = text::split_on(s, c);
        assert forall|i: int| 0 <= i < all.len() implies !(#[trigger] all[i]).contains(c) by {
            if i < all.len() - 1 {
                assert(all[i] == front[i]);
            } else if s.last() != c {
                let last = front[front.len() - 1];
                assert(all[i] == last.push(s.last()));
                if all[i].contains(c) {
                    let k = choose|k: int| 0 <= k < all[i].len() && all[i][k] == c;
                    assert(k < last.len() && last[k] == c);
                }
            }
        }
    }
}

/// A piece of a name is a form only where it is `F16` or `F32`: every other form has
/// an underscore in its own name.
pub proof fn law_pieces_are_floats(name: Seq<char>, q: Seq<char>)
    requires
        quants().contains(q),
        has_piece(name, q),
    ensures
        q == "F16"@ || q == "F32"@,
{
    reveal_strlit("F16");
    reveal_strlit("F32");
    reveal_strlit("Q2_K");
    reveal_strlit("Q3_K_L");
    reveal_strlit("Q3_K_M");
    reveal_strlit("Q3_K_S");
    reveal_strlit("Q4_0");
    reveal_strlit("Q4_1");
    reveal_strlit("Q4_K_M");
    reveal_strlit("Q4_K_S");
    reveal_strlit("Q5_0");
    reveal_strlit("Q5_1");
    reveal_strlit("Q5_K_M");
    reveal_strlit("Q5_K_S");
    reveal_strlit("Q6_K");
    reveal_strlit("Q8_0");
    assert("Q2_K"@[2] == '_');
    assert("Q3_K_L"@[2] == '_');
    assert("Q3_K_M"@[2] == '_');
    assert("Q3_K_S"@[2] == '_');
    assert("Q4_0"@[2] == '_');
    assert("Q4_1"@[2] == '_');
    assert("Q4_K_M"@[2] == '_');
    assert("Q4_K_S"@[2] == '_');
    assert("Q5_0"@[2] == '_');
    assert("Q5_1"@[2] == '_');
    assert("Q5_K_M"@[2] == '_');
    assert("Q5_K_S"@[2] == '_');
    assert("Q6_K"@[2] == '_');
    assert("Q8_0"@[2] == '_');
    let i = choose|i: int|
        0 <= i < text::split_on(name, '-').len() && #[trigger] piece_in(
            text::split_on(name, '-')[i],
            q,
        );
    let part = text::split_on(name, '-')[i];
    let j = choose|j: int|
        0 <= j < text::split_on(part, '_').len() && text::ascii_upper(
            #[trigger] text::split_on(part, '_')[j],
        ) == q;
    let piece = text::split_on(part, '_')[j];
    lemma_no_separator(part, '_');
    let n = choose|n: int| 0 <= n < quants().len() && quants()[n] == q;
    if n >= 2 {
        assert(q.contains('_'));
        let k = choose|k: int| 0 <= k < q.len() && q[k] == '_';
        assert(text::ascii_upper(piece)[k] == text::ascii_upper_char(piece[k]));
        assert(piece[k] == '_');
        assert(piece.contains('_'));
    }
}

/// A form is offered exactly where it is known and a file that is no projector gives
/// it: by its name, or as a piece of its name where the form is `F16` or `F32`.
pub proof fn law_offered_forms(names: Seq<Seq<char>>, q: Seq<char>)
    ensures
        offered(names).contains(q) <==> quants().contains(q) && exists|i: int|
            #![trigger names[i]]
            0 <= i < names.len() && !text::has(text::ascii_lower(names[i]), "mmproj"@) && (
            inferred_quant(names[i]) == Some(q) || ((q == "F16"@ || q == "F32"@) && has_piece(
                names[i],
                q,
            ))),
{
    law_offered_forms_are_known(names, q);
    if quants().contains(q) && offers(names, q) {
        let i = choose|i: int| 0 <= i < names.len() && names_quant(#[trigger] names[i], q);
        if has_piece(names[i], q) {
            law_pieces_are_floats(names[i], q);
        }
    }
    if exists|i: int|
        #![trigger names[i]]
        0 <= i < names.len() && !text::has(text::ascii_lower(names[i]), "mmproj"@) && (
        inferred_quant(names[i]) == Some(q) || ((q == "F16"@ || q == "F32"@) && has_piece(
            names[i],
            q,
        ))) {
        let i = choose|i: int|
            #![trigger names[i]]
            0 <= i < names.len() && !text::has(text::ascii_lower(names[i]), "mmproj"@) && (
            inferred_quant(names[i]) == Some(q) || ((q == "F16"@ || q == "F32"@) && has_piece(
                names[i],
                q,
            )));
        assert(names_quant(names[i], q));
    }
}

proof fn lemma_first_in(upper: Seq<char>, list: Seq<Seq<char>>)
    ensures
        match first_in(upper, list) {
            Some(q) => list.contains(q) && text::has(upper, q),
            None => forall|i: int| 0 <= i < list.len() ==> !text::has(upper, #[trigger] list[i]),
        },
    decreases list.len(),
{
    if list.len() > 0 {
        if text::has(upper, list[0]) {
            assert(list.contains(list[0]));
        } else {
            let rest = list.skip(1);
            lemma_first_in(upper, rest);
            match first_in(upper, rest) {
                Some(q) => {
                    let k = choose|k: int| 0 <= k < rest.len() && rest[k] == q;
                    assert(list[k + 1] == q);
                },
                None => {
                    assert forall|i: int| 0 <= i < list.len() implies !text::has(
                        upper,
                        #[trigger] list[i],
                    ) by {
                        if i > 0 {
                            assert(rest[i - 1] == list[i]);
                        }
                    }
                },
            }
        }
    }
}

/// The form that a file's name gives away stands in the name, in letters of either case;
/// where none is given away, none of the known forms stands in it.
pub proof fn law_form_stands_in_the_name(name: Seq<char>)
    ensures
        inferred_quant(name) matches Some(q) ==> quants_by_rank().contains(q) && text::has(
            text::ascii_upper(name),
            q,
        ),
        inferred_quant(name) is None ==> forall|i: int|
            0 <= i < quants_by_rank().len() ==> !text::has(
                text::ascii_upper(name),
                #[trigger] quants_by_rank()[i],
            ),
{
    lemma_first_in(text::ascii_upper(name), quants_by_rank());
}

proof fn lemma_preferred(q: Seq<Seq<char>>)
    ensures
        q.contains(DEFAULT_QUANT@) ==> preferred(q) is Some,
        preferred(q) matches Some(s) ==> q.contains(s) && text::ascii_lower(s)
            == text::ascii_lower(DEFAULT_QUANT@),
    decreases q.len(),
{
    if q.len() > 0 {
        let rest = q.skip(1);
        lemma_preferred(rest);
        if text::ascii_lower(q[0]) == text::ascii_lower(DEFAULT_QUANT@) {
            assert(q.contains(q[0]));
        } else {
            if q.contains(DEFAULT_QUANT@) {
                let k = choose|k: int| 0 <= k < q.len() && q[k] == DEFAULT_QUANT@;
                assert(rest[k - 1] == DEFAULT_QUANT@);
            }
            if let Some(s) = preferred(rest) {
                let k = choose|k: int| 0 <= k < rest.len() && rest[k] == s;
                assert(q[k + 1] == s);
            }
        }
    }
}

/// The form that is proposed is one of those that there are: the usual one where it is
/// among them, or else the first.
pub proof fn law_proposed_form_is_there(q: Seq<Seq<char>>)
    requires
        q.len() > 0,
    ensures
        q.contains(default_of(q)),
        q.contains(DEFAULT_QUANT@) ==> text::ascii_lower(default_of(q)) == text::ascii_lower(
            DEFAULT_QUANT@,
        ),
        (forall|i: int|
            0 <= i < q.len() ==> text::ascii_lower(#[trigger] q[i]) != text::ascii_lower(
                DEFAULT_QUANT@,
            )) ==> default_of(q) == q[0],
{
    lemma_preferred(q);
    if forall|i: int|
        0 <= i < q.len() ==> text::ascii_lower(#[trigger] q[i]) != text::ascii_lower(
            DEFAULT_QUANT@,
        ) {
        if let Some(s) = preferred(q) {
            let k = choose|k: int| 0 <= k < q.len() && q[k] == s;
            assert(text::ascii_lower(q[k]) != text::ascii_lower(DEFAULT_QUANT@));
        }
    }
    assert(q.contains(q[0]));
}

/// A repository is an owner and a name with a slash between them, and neither is empty or
/// has another slash.
pub proof fn law_repository_has_owner_and_name(owner: Seq<char>, name: Seq<char>)
    requires
        !owner.contains('/'),
        !name.contains('/'),
    ensures
        is_repo(owner + seq!['/'] + name) == (owner.len() > 0 && name.len() > 0),
        !is_repo(owner),
{
    let none = Seq::<char>::empty();
    text::lemma_split_append(none, '/', owner);
    assert(none + owner =~= owner);
    let first = text::split_on(none, '/');
    assert(first.drop_last() =~= Seq::<Seq<char>>::empty());
    assert(first.last() + owner =~= owner);
    assert(text::split_on(owner, '/') =~= seq![owner]);
    let front = owner + seq!['/'];
    assert(front.drop_last() =~= owner);
    assert(text::split_on(front, '/') =~= seq![owner, none]);
    text::lemma_split_append(front, '/', name);
    assert(seq![owner, none].drop_last() =~= seq![owner]);
    assert(none + name =~= name);
    let parts = text::split_on(front + name, '/');
    assert(parts =~= seq![owner, name]);
    assert(parts[0] == owner && parts[1] == name);
}

/// A file holds a model where its name ends as such files do, unless it is a projector.
pub proof fn law_model_files_are_found(name: Seq<char>)
    ensures
        !text::has(text::ascii_lower(name + ".gguf"@), "mmproj"@) ==> is_model_file(name + ".gguf"@),
        text::has(text::ascii_lower(name), "mmproj"@) ==> !is_model_file(name),
{
    let s = name + ".gguf"@;
    assert(s.subrange(s.len() - ".gguf"@.len(), s.len() as int) =~= ".gguf"@);
}

} // verus!
