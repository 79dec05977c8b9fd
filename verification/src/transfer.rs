//! Export and import of an installation: names, sizes and what is reported.
use crate::clock::{is_stamp, stamp_of_now};
use crate::jobs::opt_text;
use crate::lang::{pick, t, Lang};
use crate::layout::not_negative;
use crate::text::{
    decimal, decimal_text, join, joined, run_of, spaces, texts, trim, trimmed, wide_decimal_text,
};
use vstd::prelude::*;
use vstd::string::*;

verus! {

/// The host that an archive is named after.
pub open spec fn export_host(hostname: Option<Seq<char>>) -> Seq<char> {
    match hostname {
        Some(name) => if trimmed(name).len() == 0 {
            "laozhou"@
        } else {
            trimmed(name)
        },
        None => "laozhou"@,
    }
}

/// The name of an archive made on a host at a time.
pub open spec fn archive_name(host: Seq<char>, stamp: Seq<char>) -> Seq<char> {
    "laozhou-export-"@ + host + "-"@ + stamp + ".tar.gz"@
}

pub fn archive_name_at(hostname: Option<&str>, stamp: &str) -> (r: String)
    ensures
        r@ == archive_name(export_host(opt_text(hostname)), stamp@),
{
    let host = match hostname {
        Some(name) => {
            let name = trim(name);
            if name.is_empty() {
                "laozhou"
            } else {
                name
            }
        },
        None => "laozhou",
    };
    let mut r = "laozhou-export-".to_owned();
    r.append(host);
    r.append("-");
    r.append(stamp);
    r.append(".tar.gz");
    r
}

/// The name of an archive where none was given, made now.
pub fn default_export_name(hostname: Option<&str>) -> (r: String)
    ensures
        exists|stamp: Seq<char>|
            is_stamp(stamp) && r@ == #[trigger] archive_name(
                export_host(opt_text(hostname)),
                stamp,
            ),
{
    let stamp = stamp_of_now();
    archive_name_at(hostname, stamp.as_str())
}

/// `n` divided by `unit`, rounded to the nearest whole number, and to the even
/// one of two that are as near.
pub open spec fn rounded_even(n: nat, unit: nat) -> nat {
    let q = n / unit;
    let m = n % unit;
    if 2 * m > unit || (2 * m == unit && q % 2 == 1) {
        q + 1
    } else {
        q
    }
}

/// The step between numbers of the size of `n` in the precision that sizes are
/// computed with, which is 53 binary digits.
pub open spec fn precision_step(n: nat) -> nat {
    if n < 0x20000000000000 {
        1
    } else if n < 0x40000000000000 {
        2
    } else if n < 0x80000000000000 {
        4
    } else if n < 0x100000000000000 {
        8
    } else if n < 0x200000000000000 {
        16
    } else if n < 0x400000000000000 {
        32
    } else if n < 0x800000000000000 {
        64
    } else if n < 0x1000000000000000 {
        128
    } else if n < 0x2000000000000000 {
        256
    } else if n < 0x4000000000000000 {
        512
    } else if n < 0x8000000000000000 {
        1024
    } else {
        2048
    }
}

fn step_of(n: u64) -> (r: u64)
    ensures
        r == precision_step(n as nat),
        1 <= r <= 2048,
{
    if n < 0x20000000000000 {
        1
    } else if n < 0x40000000000000 {
        2
    } else if n < 0x80000000000000 {
        4
    } else if n < 0x100000000000000 {
        8
    } else if n < 0x200000000000000 {
        16
    } else if n < 0x400000000000000 {
        32
    } else if n < 0x800000000000000 {
        64
    } else if n < 0x1000000000000000 {
        128
    } else if n < 0x2000000000000000 {
        256
    } else if n < 0x4000000000000000 {
        512
    } else if n < 0x8000000000000000 {
        1024
    } else {
        2048
    }
}

/// A number to that precision.
pub open spec fn to_precision(n: nat) -> nat {
    rounded_even(n, precision_step(n)) * precision_step(n)
}

fn round_even(n: u128, unit: u128) -> (r: u128)
    requires
        1 <= unit <= 0x8000_0000,
        n <= 0x100_0000_0000_0000_0000,
    ensures
        r == rounded_even(n as nat, unit as nat),
        r <= n + 1,
{
    let q: u128 = n / unit;
    let m: u128 = n % unit;
    assert(q <= n) by (nonlinear_arith)
        requires
            q == n / unit,
            unit >= 1,
            n >= 0,
    ;
    if 2 * m > unit || (2 * m == unit && q % 2 == 1) {
        q + 1
    } else {
        q
    }
}

/// A size in the largest of the units of which there is at least one: whole
/// bytes, or the larger units to one decimal place.
pub open spec fn readable(bytes: nat) -> Seq<char> {
    let size = to_precision(bytes);
    if size < 0x400 {
        decimal(bytes) + " B"@
    } else if size < 0x10_0000 {
        one_decimal(rounded_even(size * 10, 0x400)) + " KB"@
    } else if size < 0x4000_0000 {
        one_decimal(rounded_even(size * 10, 0x10_0000)) + " MB"@
    } else {
        one_decimal(rounded_even(size * 10, 0x4000_0000)) + " GB"@
    }
}

/// A number of tenths with its decimal place.
pub open spec fn one_decimal(tenths: nat) -> Seq<char> {
    decimal(tenths / 10) + "."@ + decimal(tenths % 10)
}

fn one_decimal_text(tenths: u128) -> (r: String)
    ensures
        r@ == one_decimal(tenths as nat),
{
    let mut r = wide_decimal_text(tenths / 10);
    let digit = wide_decimal_text(tenths % 10);
    r.append(".");
    r.append(digit.as_str());
    r
}

pub fn readable_bytes(bytes: u64) -> (r: String)
    ensures
        r@ == readable(bytes as nat),
{
    let step: u128 = step_of(bytes) as u128;
    let count = round_even(bytes as u128, step);
    proof {
        lemma_precision_bound(bytes as nat);
        assert(count * step == to_precision(bytes as nat));
    }
    let size: u128 = count * step;
    let tenfold: u128 = size * 10;
    let mut r: String;
    if size < 0x400 {
        r = decimal_text(bytes);
        r.append(" B");
    } else if size < 0x10_0000 {
        r = one_decimal_text(round_even(tenfold, 0x400));
        r.append(" KB");
    } else if size < 0x4000_0000 {
        r = one_decimal_text(round_even(tenfold, 0x10_0000));
        r.append(" MB");
    } else {
        r = one_decimal_text(round_even(tenfold, 0x4000_0000));
        r.append(" GB");
    }
    r
}

proof fn lemma_precision_bound(n: nat)
    requires
        n <= u64::MAX,
    ensures
        to_precision(n) <= n + 2048,
{
    let step = precision_step(n) as int;
    let m = n as int;
    let q = m / step;
    assert(q * step <= m && (q + 1) * step <= m + step) by (nonlinear_arith)
        requires
            q == m / step,
            step >= 1,
            m >= 0,
    ;
    let count = rounded_even(n, precision_step(n)) as int;
    assert(count == q || count == q + 1);
}

/// What an export came to.
#[derive(Debug)]
pub struct ExportReport {
    pub by_unit: Vec<(String, u64)>,
    pub entries: u64,
    pub bytes: u64,
    /// The archive, unless nothing was to be written.
    pub archive: Option<String>,
    pub secrets_included: bool,
}

#[derive(Clone, Copy, Debug, PartialEq, Eq, Structural)]
pub struct ExportOptions {
    pub all: bool,
    pub index: bool,
    pub dry_run: bool,
}

/// What an export says at its end.
pub open spec fn export_summary(lang: Lang, report: ExportReport) -> Seq<char> {
    let count = decimal(report.entries as nat);
    let size = readable(report.bytes as nat);
    match (report.archive, lang) {
        (None, Lang::En) => "Dry run: "@ + count + " files, "@ + size + " would be packed."@,
        (None, Lang::Zh) => "试运行：将打包 "@ + count + " 个文件，共 "@ + size + "。"@,
        (Some(path), Lang::En) => "Exported "@ + count + " files ("@ + size + ") to "@ + path@,
        (Some(path), Lang::Zh) => "已导出 "@ + count + " 个文件（"@ + size + "）到 "@ + path@,
    }
}

pub fn export_summary_text(lang: Lang, report: &ExportReport) -> (r: String)
    ensures
        r@ == export_summary(lang, *report),
{
    let count = decimal_text(report.entries);
    let size = readable_bytes(report.bytes);
    match &report.archive {
        None => {
            let mut r = t(lang, "Dry run: ", "试运行：将打包 ").to_owned();
            r.append(count.as_str());
            r.append(t(lang, " files, ", " 个文件，共 "));
            r.append(size.as_str());
            r.append(t(lang, " would be packed.", "。"));
            r
        },
        Some(path) => {
            let mut r = t(lang, "Exported ", "已导出 ").to_owned();
            r.append(count.as_str());
            r.append(t(lang, " files (", " 个文件（"));
            r.append(size.as_str());
            r.append(t(lang, ") to ", "）到 "));
            r.append(path.as_str());
            r
        },
    }
}

/// Whether the user has to be warned that an archive holds secrets: only of one
/// that was written.
pub fn warns_of_secrets(report: &ExportReport) -> (r: bool)
    ensures
        r == (report.secrets_included && report.archive is Some),
{
    report.secrets_included && report.archive.is_some()
}

pub open spec fn secrets_warning(lang: Lang) -> Seq<char> {
    pick(
        lang,
        "Warning: this archive contains API keys and access tokens in plain text. Keep it private, or re-export with --no-secrets."@,
        "警告：归档内含明文 API key 与访问令牌。请妥善保管，或改用 --no-secrets 重新导出。"@,
    )
}

pub open spec fn index_hint(lang: Lang) -> Seq<char> {
    pick(
        lang,
        "The knowledge-base vector index was left out; run `laozhou kb embed` after importing (or re-export with --index)."@,
        "未包含知识库向量索引；导入后请运行 laozhou kb embed（或改用 --index 重新导出）。"@,
    )
}

/// The size of a part of the archive, in a column of ten characters, and its name.
pub open spec fn unit_line(unit: (String, u64)) -> Seq<char> {
    let size = readable(unit.1 as nat);
    "  "@ + run_of(' ', not_negative(10 - size.len()) as nat) + size + "  "@ + unit.0@
}

/// The parts of the archive, which a dry run lists.
pub open spec fn unit_lines(options: ExportOptions, report: ExportReport) -> Seq<Seq<char>> {
    if options.dry_run {
        report.by_unit@.map_values(|unit: (String, u64)| unit_line(unit))
    } else {
        Seq::empty()
    }
}

fn unit_texts(report: &ExportReport) -> (r: Vec<String>)
    ensures
        texts(r@) == report.by_unit@.map_values(|unit: (String, u64)| unit_line(unit)),
{
    let mut out: Vec<String> = Vec::new();
    let mut i: usize = 0;
    while i < report.by_unit.len()
        invariant
            i <= report.by_unit@.len(),
            out@.len() == i,
            forall|k: int| 0 <= k < i ==> (#[trigger] out@[k])@ == unit_line(report.by_unit@[k]),
        decreases report.by_unit@.len() - i,
    {
        let size = readable_bytes(report.by_unit[i].1);
        let fill = spaces(10usize.saturating_sub(size.as_str().unicode_len()));
        let mut line = "  ".to_owned();
        line.append(fill.as_str());
        line.append(size.as_str());
        line.append("  ");
        line.append(report.by_unit[i].0.as_str());
        out.push(line);
        i = i + 1;
    }
    assert(texts(out@) =~= report.by_unit@.map_values(|unit: (String, u64)| unit_line(unit)));
    out
}

/// Everything that an export reports: the lines for standard output, and the
/// warning for standard error.
pub fn run_export(lang: Lang, options: ExportOptions, report: &ExportReport) -> (r: (
    Vec<String>,
    Option<String>,
))
    ensures
        texts(r.0@) == unit_lines(options, *report) + seq![export_summary(lang, *report)]
            + if !options.all && !options.index {
            seq![index_hint(lang)]
        } else {
            Seq::empty()
        },
        match r.1 {
            Some(warning) => report.secrets_included && report.archive is Some && warning@
                == secrets_warning(lang),
            None => !(report.secrets_included && report.archive is Some),
        },
{
    let mut lines: Vec<String> = if options.dry_run {
        unit_texts(report)
    } else {
        Vec::new()
    };
    assert(texts(lines@) =~= unit_lines(options, *report));
    lines.push(export_summary_text(lang, report));
    if !options.all && !options.index {
        lines.push(
            t(
                lang,
                "The knowledge-base vector index was left out; run `laozhou kb embed` after importing (or re-export with --index).",
                "未包含知识库向量索引；导入后请运行 laozhou kb embed（或改用 --index 重新导出）。",
            ).to_owned(),
        );
    }
    assert(texts(lines@) =~= unit_lines(options, *report) + seq![export_summary(lang, *report)] + if
    !options.all && !options.index {
        seq![index_hint(lang)]
    } else {
        Seq::empty()
    });
    let warning = if warns_of_secrets(report) {
        Some(
            t(
                lang,
                "Warning: this archive contains API keys and access tokens in plain text. Keep it private, or re-export with --no-secrets.",
                "警告：归档内含明文 API key 与访问令牌。请妥善保管，或改用 --no-secrets 重新导出。",
            ).to_owned(),
        )
    } else {
        None
    };
    (lines, warning)
}

/// What an import came to.
#[derive(Debug)]
pub struct ImportReport {
    pub backup: Option<String>,
    pub restored: u64,
    pub unknown_units: Vec<String>,
    pub cleared_workspaces: u64,
    pub index_included: bool,
    pub secrets_included: bool,
}

/// Why an import cannot be made while the daemon runs.
pub fn import_blocked(lang: Lang, daemon_running: bool) -> (r: Option<&'static str>)
    ensures
        r is Some <==> daemon_running,
        r matches Some(text) ==> text@ == pick(
            lang,
            "the Laozhou daemon is running and holds the database open; stop it first with `laozhou daemon stop`"@,
            "Laozhou daemon 正在运行并占用数据库；请先执行 laozhou daemon stop"@,
        ),
{
    if daemon_running {
        Some(
            t(
                lang,
                "the Laozhou daemon is running and holds the database open; stop it first with `laozhou daemon stop`",
                "Laozhou daemon 正在运行并占用数据库；请先执行 laozhou daemon stop",
            ),
        )
    } else {
        None
    }
}

pub open spec fn line_if(condition: bool, line: Seq<char>) -> Seq<Seq<char>> {
    if condition {
        seq![line]
    } else {
        Seq::empty()
    }
}

pub open spec fn backup_line(lang: Lang, backup: Option<String>) -> Seq<Seq<char>> {
    match backup {
        Some(path) => seq![
            pick(
                lang,
                "Backed up the previous installation to "@,
                "已把覆盖前的安装备份到 "@,
            ) + path@,
        ],
        None => Seq::empty(),
    }
}

/// What an import reports: what was restored, what this version does not know,
/// what was cleared, and what is left to do by hand.
pub open spec fn import_lines(lang: Lang, report: ImportReport) -> Seq<Seq<char>> {
    backup_line(lang, report.backup) + seq![
        pick(lang, "Restored "@, "已恢复 "@) + decimal(report.restored as nat) + pick(
            lang,
            " files."@,
            " 个文件。"@,
        ),
    ] + line_if(
        report.unknown_units@.len() > 0,
        pick(
            lang,
            "Restored data this version does not recognise (written by a newer Laozhou): "@,
            "恢复了本版本不认识的数据（由更新版本的 Laozhou 写入）："@,
        ) + joined(texts(report.unknown_units@), ", "@),
    ) + line_if(
        report.cleared_workspaces > 0,
        pick(lang, "Cleared "@, "已清除 "@) + decimal(report.cleared_workspaces as nat) + pick(
            lang,
            " session workspace(s) pointing at directories this machine does not have."@,
            " 个指向本机不存在目录的会话工作区。"@,
        ),
    ) + seq![
        "\n"@ + pick(lang, "Next steps:"@, "接下来需要手动完成："@),
        "  "@ + pick(
            lang,
            "reinstall the shell integration: `laozhou fish-init` / `bash-init` / `zsh-init`"@,
            "重装 shell 集成：laozhou fish-init / bash-init / zsh-init"@,
        ),
        "  "@ + pick(
            lang,
            "`laozhou kb reindex` — the knowledge base records absolute paths from the old machine"@,
            "laozhou kb reindex —— 知识库记录的是旧机器上的绝对路径"@,
        ),
    ] + line_if(
        !report.index_included,
        "  "@ + pick(
            lang,
            "`laozhou kb embed` — the vector index was not in the archive"@,
            "laozhou kb embed —— 归档中不含向量索引"@,
        ),
    ) + line_if(
        !report.secrets_included,
        "  "@ + pick(
            lang,
            "refill API keys and access tokens: `laozhou config`"@,
            "补填 API key 与访问令牌：laozhou config"@,
        ),
    )
}

fn two(a: &str, b: &str) -> (r: String)
    ensures
        r@ == a@ + b@,
{
    let mut r = a.to_owned();
    r.append(b);
    r
}

fn push_text(lines: &mut Vec<String>, line: String)
    ensures
        texts(final(lines)@) == texts(old(lines)@) + seq![line@],
{
    let ghost before = lines@;
    lines.push(line);
    assert(texts(lines@) =~= texts(before) + seq![line@]);
}

fn push_if(lines: &mut Vec<String>, condition: bool, line: String)
    ensures
        texts(final(lines)@) == texts(old(lines)@) + line_if(condition, line@),
{
    if condition {
        push_text(lines, line);
    } else {
        assert(texts(lines@) =~= texts(lines@) + Seq::empty());
    }
}

pub fn run_import(lang: Lang, report: &ImportReport) -> (r: Vec<String>)
    ensures
        texts(r@) == import_lines(lang, *report),
{
    let mut lines: Vec<String> = Vec::new();
    if let Some(path) = &report.backup {
        lines.push(
            two(
                t(
                    lang,
                    "Backed up the previous installation to ",
                    "已把覆盖前的安装备份到 ",
                ),
                path.as_str(),
            ),
        );
    }
    assert(texts(lines@) =~= backup_line(lang, report.backup));
    let restored = decimal_text(report.restored);
    push_text(
        &mut lines,
        crate::echo::enclosed(
            t(lang, "Restored ", "已恢复 "),
            restored.as_str(),
            t(lang, " files.", " 个文件。"),
        ),
    );
    let units = join(&report.unknown_units, ", ");
    push_if(
        &mut lines,
        report.unknown_units.len() > 0,
        two(
            t(
                lang,
                "Restored data this version does not recognise (written by a newer Laozhou): ",
                "恢复了本版本不认识的数据（由更新版本的 Laozhou 写入）：",
            ),
            units.as_str(),
        ),
    );
    let cleared = decimal_text(report.cleared_workspaces);
    push_if(
        &mut lines,
        report.cleared_workspaces > 0,
        crate::echo::enclosed(
            t(lang, "Cleared ", "已清除 "),
            cleared.as_str(),
            t(
                lang,
                " session workspace(s) pointing at directories this machine does not have.",
                " 个指向本机不存在目录的会话工作区。",
            ),
        ),
    );
    let a = two("\n", t(lang, "Next steps:", "接下来需要手动完成："));
    let b = two(
        "  ",
        t(
            lang,
            "reinstall the shell integration: `laozhou fish-init` / `bash-init` / `zsh-init`",
            "重装 shell 集成：laozhou fish-init / bash-init / zsh-init",
        ),
    );
    let c = two(
        "  ",
        t(
            lang,
            "`laozhou kb reindex` — the knowledge base records absolute paths from the old machine",
            "laozhou kb reindex —— 知识库记录的是旧机器上的绝对路径",
        ),
    );
    let ghost before = texts(lines@);
    lines.push(a);
    lines.push(b);
    lines.push(c);
    assert(texts(lines@) =~= before + seq![a@, b@, c@]);
    push_if(
        &mut lines,
        !report.index_included,
        two(
            "  ",
            t(
                lang,
                "`laozhou kb embed` — the vector index was not in the archive",
                "laozhou kb embed —— 归档中不含向量索引",
            ),
        ),
    );
    push_if(
        &mut lines,
        !report.secrets_included,
        two(
            "  ",
            t(
                lang,
                "refill API keys and access tokens: `laozhou config`",
                "补填 API key 与访问令牌：laozhou config",
            ),
        ),
    );
    lines
}

/// An archive is named after its host and its moment; a blank host is the name of
/// the program.
pub proof fn law_archives_are_named_after_their_host(hostname: Option<&str>, stamp: &str, r: String)
    requires
        call_ensures(archive_name_at, (hostname, stamp), r),
    ensures
        hostname is Some && trimmed(hostname->0@).len() > 0 ==> r@ == "laozhou-export-"@ + trimmed(
            hostname->0@,
        ) + "-"@ + stamp@ + ".tar.gz"@,
        hostname is None || trimmed(hostname->0@).len() == 0 ==> r@ == "laozhou-export-"@
            + "laozhou"@ + "-"@ + stamp@ + ".tar.gz"@,
{
}

/// Rounding goes to the nearest whole number, and halfway to the even one.
pub proof fn law_rounding_is_to_the_nearest(n: nat, unit: nat)
    requires
        unit > 0,
    ensures
        n % unit * 2 < unit ==> rounded_even(n, unit) == n / unit,
        n % unit * 2 > unit ==> rounded_even(n, unit) == n / unit + 1,
        n % unit * 2 == unit ==> rounded_even(n, unit) % 2 == 0,
        n % unit == 0 ==> rounded_even(n, unit) == n / unit,
{
    assert((n / unit) % 2 == 1 ==> (n / unit + 1) % 2 == 0);
}

/// Sizes below a kibibyte are whole bytes; larger ones are in the largest unit of
/// which there is one, in the number of tenths that is nearest.
pub proof fn law_sizes_are_in_their_unit(bytes: u64, r: String, tenths: nat)
    requires
        call_ensures(readable_bytes, (bytes,), r),
        bytes < 0x20000000000000,
    ensures
        bytes < 0x400 ==> r@ == decimal(bytes as nat) + " B"@,
        0x400 <= bytes < 0x10_0000 && 2 * tenths * 0x400 - 0x400 < 20 * bytes < 2 * tenths * 0x400
            + 0x400 ==> r@ == decimal(tenths / 10) + "."@ + decimal(tenths % 10) + " KB"@,
        0x10_0000 <= bytes < 0x4000_0000 && 2 * tenths * 0x10_0000 - 0x10_0000 < 20 * bytes < 2
            * tenths * 0x10_0000 + 0x10_0000 ==> r@ == decimal(tenths / 10) + "."@ + decimal(
            tenths % 10,
        ) + " MB"@,
        0x4000_0000 <= bytes && 2 * tenths * 0x4000_0000 - 0x4000_0000 < 20 * bytes < 2 * tenths
            * 0x4000_0000 + 0x4000_0000 ==> r@ == decimal(tenths / 10) + "."@ + decimal(tenths % 10)
            + " GB"@,
{
    assert(bytes as nat / 1 == bytes && bytes as nat % 1 == 0);
    assert(to_precision(bytes as nat) == bytes as nat);
    let n = bytes as nat * 10;
    if 0x400 <= bytes < 0x10_0000 && 2 * tenths * 0x400 - 0x400 < 20 * bytes < 2 * tenths * 0x400
        + 0x400 {
        assert(rounded_even(n, 0x400) == tenths);
    }
    if 0x10_0000 <= bytes < 0x4000_0000 && 2 * tenths * 0x10_0000 - 0x10_0000 < 20 * bytes < 2
        * tenths * 0x10_0000 + 0x10_0000 {
        assert(rounded_even(n, 0x10_0000) == tenths);
    }
    if 0x4000_0000 <= bytes && 2 * tenths * 0x4000_0000 - 0x4000_0000 < 20 * bytes < 2 * tenths
        * 0x4000_0000 + 0x4000_0000 {
        assert(rounded_even(n, 0x4000_0000) == tenths);
    }
}

/// An export says how many files and how much, and where they went; a dry run
/// says what would have.
pub proof fn law_exports_say_what_they_packed(lang: Lang, report: &ExportReport, r: String)
    requires
        call_ensures(export_summary_text, (lang, report), r),
    ensures
        report.archive is Some && lang is En ==> r@ == "Exported "@ + decimal(report.entries as nat)
            + " files ("@ + readable(report.bytes as nat) + ") to "@ + report.archive->0@,
        report.archive is Some && lang is Zh ==> r@ == "已导出 "@ + decimal(report.entries as nat)
            + " 个文件（"@ + readable(report.bytes as nat) + "）到 "@ + report.archive->0@,
        report.archive is None && lang is En ==> r@ == "Dry run: "@ + decimal(report.entries as nat)
            + " files, "@ + readable(report.bytes as nat) + " would be packed."@,
        report.archive is None && lang is Zh ==> r@ == "试运行：将打包 "@ + decimal(
            report.entries as nat,
        ) + " 个文件，共 "@ + readable(report.bytes as nat) + "。"@,
{
}

/// The user is warned of secrets in an archive that was written; the parts are
/// listed by a dry run alone; the way to the index is told where it is not there.
pub proof fn law_exports_warn_and_hint(
    lang: Lang,
    options: ExportOptions,
    report: &ExportReport,
    r: (Vec<String>, Option<String>),
    warns: bool,
    i: int,
)
    requires
        call_ensures(run_export, (lang, options, report), r),
        call_ensures(warns_of_secrets, (report,), warns),
    ensures
        warns <==> r.1 is Some,
        r.1 is Some <==> report.secrets_included && report.archive is Some,
        !options.dry_run && !options.all && !options.index ==> r.0@.len() == 2,
        !options.dry_run && (options.all || options.index) ==> r.0@.len() == 1,
        !options.dry_run ==> r.0@[0]@ == export_summary(lang, *report),
        options.dry_run && !options.all && !options.index ==> r.0@.len()
            == report.by_unit@.len() + 2,
        options.dry_run && (options.all || options.index) ==> r.0@.len()
            == report.by_unit@.len() + 1,
        options.dry_run && 0 <= i < report.by_unit@.len() ==> r.0@[i]@ == unit_line(
            report.by_unit@[i],
        ),
        options.dry_run ==> r.0@[report.by_unit@.len() as int]@ == export_summary(lang, *report),
{
    assert(texts(r.0@).len() == r.0@.len());
    assert(unit_lines(options, *report).len() == if options.dry_run {
        report.by_unit@.len()
    } else {
        0
    });
    assert(texts(r.0@)[0] == r.0@[0]@);
    if options.dry_run {
        let n = report.by_unit@.len() as int;
        assert(texts(r.0@)[n] == r.0@[n]@);
    }
    if options.dry_run && 0 <= i < report.by_unit@.len() {
        assert(texts(r.0@)[i] == r.0@[i]@);
    }
}

/// Nothing is imported while the daemon runs.
pub proof fn law_imports_wait_for_the_daemon(lang: Lang, running: bool, r: Option<&'static str>)
    requires
        call_ensures(import_blocked, (lang, running), r),
    ensures
        r is Some <==> running,
{
}

/// An import tells its backup first where there is one, then what was restored;
/// it tells of data it does not know, of workspaces it cleared, and of what was
/// not in the archive where that is so, and of nothing else.
pub proof fn law_imports_say_what_is_left_to_do(lang: Lang, report: &ImportReport, r: Vec<String>)
    requires
        call_ensures(run_import, (lang, report), r),
    ensures
        r@.len() == 4 + (if report.backup is Some {
            1int
        } else {
            0
        }) + (if report.unknown_units@.len() > 0 {
            1int
        } else {
            0
        }) + (if report.cleared_workspaces > 0 {
            1int
        } else {
            0
        }) + (if report.index_included {
            0int
        } else {
            1
        }) + (if report.secrets_included {
            0int
        } else {
            1
        }),
        report.backup is Some ==> r@[0]@ == pick(
            lang,
            "Backed up the previous installation to "@,
            "已把覆盖前的安装备份到 "@,
        ) + report.backup->0@,
        report.backup is None ==> r@[0]@ == pick(lang, "Restored "@, "已恢复 "@) + decimal(
            report.restored as nat,
        ) + pick(lang, " files."@, " 个文件。"@),
        report.backup is Some ==> r@[1]@ == pick(lang, "Restored "@, "已恢复 "@) + decimal(
            report.restored as nat,
        ) + pick(lang, " files."@, " 个文件。"@),
        !report.secrets_included ==> r@[r@.len() - 1]@ == "  "@ + pick(
            lang,
            "refill API keys and access tokens: `laozhou config`"@,
            "补填 API key 与访问令牌：laozhou config"@,
        ),
        report.secrets_included && !report.index_included ==> r@[r@.len() - 1]@ == "  "@ + pick(
            lang,
            "`laozhou kb embed` — the vector index was not in the archive"@,
            "laozhou kb embed —— 归档中不含向量索引"@,
        ),
{
    assert(texts(r@).len() == r@.len());
    assert(texts(r@)[0] == r@[0]@);
    assert(texts(r@)[1] == r@[1]@);
    assert(texts(r@)[r@.len() - 1] == r@[r@.len() - 1]@);
}

} // verus!
