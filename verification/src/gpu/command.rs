//! Where the tools that read GPUs are found, and what they print.

use crate::strmap::StrMap;
use crate::text;
use vstd::prelude::*;

verus! {

/// What a tool printed, without white space around it; none where that is
/// nothing.
pub fn printed(stdout: &str) -> (r: Option<String>)
    ensures
        match r {
            Some(s) => s@ == text::trimmed(stdout@) && s@.len() > 0,
            None => text::trimmed(stdout@).len() == 0,
        },
{
    let t = text::trim(stdout);
    if t.as_str().is_empty() {
        None
    } else {
        Some(t)
    }
}

/// The first line that is not blank, without white space around it.
pub fn first_row(stdout: &str) -> (r: Option<String>)
    ensures
        match r {
            Some(s) => text::rows_of(stdout@).len() > 0 && s@ == text::rows_of(stdout@)[0],
            None => text::rows_of(stdout@).len() == 0,
        },
{
    let rows = text::rows(stdout);
    assert(text::views(rows@).len() == rows@.len());
    if rows.len() == 0 {
        None
    } else {
        assert(text::views(rows@)[0] == rows@[0]@);
        Some(text::copy(&rows[0]))
    }
}

/// What the variable `name` stands for: its value, or its own mention where it
/// is not set.
pub open spec fn value_of(env: Map<Seq<char>, String>, name: Seq<char>) -> Seq<char> {
    if env.dom().contains(name) {
        env[name]@
    } else {
        "%"@ + name + "%"@
    }
}

/// `raw` with the values of the variables that it mentions between percent
/// signs. A percent sign without a second one stays.
pub open spec fn expanded(raw: Seq<char>, env: Map<Seq<char>, String>) -> Seq<char>
    decreases raw.len(),
{
    match text::char_index(raw, '%') {
        None => raw,
        Some(i) => {
            proof {
                text::lemma_char_index(raw, '%');
            }
            let after = raw.skip(i + 1);
            match text::char_index(after, '%') {
                None => raw,
                Some(j) => {
                    proof {
                        text::lemma_char_index(after, '%');
                    }
                    raw.take(i) + value_of(env, after.take(j)) + expanded(after.skip(j + 1), env)
                },
            }
        },
    }
}

fn expand_from(raw: &str, env: &StrMap<String>) -> (r: String)
    requires
        env.wf(),
    ensures
        r@ == expanded(raw@, env@),
    decreases raw@.len(),
{
    proof {
        text::lemma_char_index(raw@, '%');
    }
    match text::find_char(raw, '%') {
        None => text::copy(raw),
        Some(i) => {
            let after = text::skip(raw, i + 1);
            proof {
                text::lemma_char_index(after@, '%');
            }
            match text::find_char(&after, '%') {
                None => text::copy(raw),
                Some(j) => {
                    let name = text::take(&after, j);
                    let value = match env.get(&name) {
                        Some(v) => text::copy(v),
                        None => text::concat3("%", &name, "%"),
                    };
                    let front = text::take(raw, i);
                    let rest = expand_from(&text::skip(&after, j + 1), env);
                    text::concat3(&front, &value, &rest)
                },
            }
        },
    }
}

/// The path that `raw` stands for: on Windows, the variables that it mentions
/// between percent signs stand for their values.
pub fn expand_path_env(raw: &str, windows: bool, env: &StrMap<String>) -> (r: String)
    requires
        env.wf(),
    ensures
        r@ == if windows {
            expanded(raw@, env@)
        } else {
            raw@
        },
{
    if windows {
        expand_from(raw, env)
    } else {
        text::copy(raw)
    }
}

/// What a list of texts says.
pub open spec fn strs(v: Seq<&str>) -> Seq<Seq<char>> {
    v.map_values(|s: &str| s@)
}

/// Where `nvidia-smi` may stand.
pub fn nvidia_smi_candidates() -> (r: Vec<&'static str>)
    ensures
        strs(r@) == seq![
            "%SystemRoot%\\System32\\nvidia-smi.exe"@,
            "C:\\Windows\\System32\\nvidia-smi.exe"@,
            "C:\\Program Files\\NVIDIA Corporation\\NVSMI\\nvidia-smi.exe"@,
            "/usr/bin/nvidia-smi"@,
            "/usr/local/bin/nvidia-smi"@,
        ],
{
    let v = vec![
        "%SystemRoot%\\System32\\nvidia-smi.exe",
        "C:\\Windows\\System32\\nvidia-smi.exe",
        "C:\\Program Files\\NVIDIA Corporation\\NVSMI\\nvidia-smi.exe",
        "/usr/bin/nvidia-smi",
        "/usr/local/bin/nvidia-smi",
    ];
    v
}

/// Where `amd-smi` may stand.
pub fn amd_smi_candidates() -> (r: Vec<&'static str>)
    ensures
        strs(r@) == seq![
            "C:\\Program Files\\AMD\\ROCm\\bin\\amd-smi.exe"@,
            "C:\\Program Files\\AMD\\ROCm\\5.7\\bin\\amd-smi.exe"@,
            "C:\\Program Files\\AMD\\ROCm\\6.0\\bin\\amd-smi.exe"@,
            "C:\\Program Files\\AMD\\ROCm\\6.1\\bin\\amd-smi.exe"@,
            "C:\\Program Files\\AMD\\ROCm\\6.2\\bin\\amd-smi.exe"@,
            "/opt/rocm/bin/amd-smi"@,
            "/usr/bin/amd-smi"@,
        ],
{
    let v = vec![
        "C:\\Program Files\\AMD\\ROCm\\bin\\amd-smi.exe",
        "C:\\Program Files\\AMD\\ROCm\\5.7\\bin\\amd-smi.exe",
        "C:\\Program Files\\AMD\\ROCm\\6.0\\bin\\amd-smi.exe",
        "C:\\Program Files\\AMD\\ROCm\\6.1\\bin\\amd-smi.exe",
        "C:\\Program Files\\AMD\\ROCm\\6.2\\bin\\amd-smi.exe",
        "/opt/rocm/bin/amd-smi",
        "/usr/bin/amd-smi",
    ];
    v
}

/// Where `rocm-smi` may stand.
pub fn rocm_smi_candidates() -> (r: Vec<&'static str>)
    ensures
        strs(r@) == seq![
            "C:\\Program Files\\AMD\\ROCm\\bin\\rocm-smi.exe"@,
            "C:\\Program Files\\AMD\\ROCm\\5.7\\bin\\rocm-smi.exe"@,
            "C:\\Program Files\\AMD\\ROCm\\6.0\\bin\\rocm-smi.exe"@,
            "/opt/rocm/bin/rocm-smi"@,
            "/usr/bin/rocm-smi"@,
        ],
{
    let v = vec![
        "C:\\Program Files\\AMD\\ROCm\\bin\\rocm-smi.exe",
        "C:\\Program Files\\AMD\\ROCm\\5.7\\bin\\rocm-smi.exe",
        "C:\\Program Files\\AMD\\ROCm\\6.0\\bin\\rocm-smi.exe",
        "/opt/rocm/bin/rocm-smi",
        "/usr/bin/rocm-smi",
    ];
    v
}

/// Where `xpu-smi` may stand.
pub fn xpu_smi_candidates() -> (r: Vec<&'static str>)
    ensures
        strs(r@) == seq![
            "C:\\Program Files\\Intel\\XPU-SMI\\xpu-smi.exe"@,
            "C:\\Program Files (x86)\\Intel\\XPU-SMI\\xpu-smi.exe"@,
            "/usr/bin/xpu-smi"@,
            "/usr/local/bin/xpu-smi"@,
        ],
{
    let v = vec![
        "C:\\Program Files\\Intel\\XPU-SMI\\xpu-smi.exe",
        "C:\\Program Files (x86)\\Intel\\XPU-SMI\\xpu-smi.exe",
        "/usr/bin/xpu-smi",
        "/usr/local/bin/xpu-smi",
    ];
    v
}

/// Where `intel_gpu_top` may stand.
pub fn intel_gpu_top_candidates() -> (r: Vec<&'static str>)
    ensures
        strs(r@) == seq!["/usr/bin/intel_gpu_top"@, "/usr/local/bin/intel_gpu_top"@],
{
    let v = vec!["/usr/bin/intel_gpu_top", "/usr/local/bin/intel_gpu_top"];
    v
}

/// A name between percent signs stands for its value, and stays where it has none; a text
/// without percent signs stays as it is.
pub proof fn law_names_are_expanded(
    a: Seq<char>,
    name: Seq<char>,
    rest: Seq<char>,
    env: Map<Seq<char>, String>,
)
    requires
        !a.contains('%'),
        !name.contains('%'),
    ensures
        expanded(a, env) == a,
        env.dom().contains(name) ==> expanded(a + seq!['%'] + name + seq!['%'] + rest, env) == a
            + env[name]@ + expanded(rest, env),
        !env.dom().contains(name) ==> expanded(a + seq!['%'] + name + seq!['%'] + rest, env) == a + (
        "%"@ + name + "%"@) + expanded(rest, env),
{
    let raw = a + seq!['%'] + name + seq!['%'] + rest;
    let tail = seq!['%'] + name + seq!['%'] + rest;
    assert(raw =~= a + tail);
    text::lemma_char_index_behind(a, tail, '%');
    let after = name + (seq!['%'] + rest);
    assert(raw.skip((a.len() + 1) as int) =~= after);
    text::lemma_char_index_behind(name, seq!['%'] + rest, '%');
    assert(after.take(name.len() as int) =~= name);
    assert(after.skip((name.len() + 1) as int) =~= rest);
    assert(raw.take(a.len() as int) =~= a);
    text::lemma_char_index(a, '%');
    if text::char_index(a, '%') is Some {
        assert(a.contains(a[text::char_index(a, '%')->0]));
    }
}

} // verus!
