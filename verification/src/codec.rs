//! A serialized form of the package index, for a cache that persists the
//! parsed index between runs: a flat, self-delimiting stream of tokens.
//! Decoding an encoded index yields it back, structurally equal.

use vstd::prelude::*;
use crate::record::DepModel;
use crate::record::Dependency;
use crate::record::IndexModel;
use crate::record::Package;
use crate::record::PackageModel;
use crate::record::RecordModel;
use crate::record::Version;
use crate::record::VersionRecord;
use crate::record::dep_model;
use crate::record::package_model;
use crate::record::record_model;
use crate::index::PackageIndex;

verus! {

/// One unit of the serialized form: a number, a flag, a text, or the end of
/// a list.
pub enum Token {
    Num(u64),
    Flag(bool),
    Text(String),
    End,
}

/// Reads one number token.
pub open spec fn s_dec_num(t: Seq<Token>, p: int) -> Option<(u64, int)> {
    if 0 <= p < t.len() && t[p] is Num {
        Some((t[p]->Num_0, p + 1))
    } else {
        None
    }
}

/// Reads one flag token.
pub open spec fn s_dec_flag(t: Seq<Token>, p: int) -> Option<(bool, int)> {
    if 0 <= p < t.len() && t[p] is Flag {
        Some((t[p]->Flag_0, p + 1))
    } else {
        None
    }
}

/// Reads one text token.
pub open spec fn s_dec_text(t: Seq<Token>, p: int) -> Option<(String, int)> {
    if 0 <= p < t.len() && t[p] is Text {
        Some((t[p]->Text_0, p + 1))
    } else {
        None
    }
}

/// The serialized form of an optional text: a presence flag, then the text.
pub open spec fn s_enc_opt_text(o: Option<String>) -> Seq<Token> {
    match o {
        Option::None => seq![Token::Flag(false)],
        Option::Some(s) => seq![Token::Flag(true), Token::Text(s)],
    }
}

/// Reads an optional text.
pub open spec fn s_dec_opt_text(t: Seq<Token>, p: int) -> Option<(Option<String>, int)> {
    match s_dec_flag(t, p) {
        Some((present, p1)) => {
            if !present {
                Some((Option::None, p1))
            } else {
                match s_dec_text(t, p1) {
                    Some((s, p2)) => Some((Option::Some(s), p2)),
                    None => None,
                }
            }
        },
        None => None,
    }
}

/// The serialized form of a list of texts: the items, then an end marker.
pub open spec fn s_enc_texts(ss: Seq<String>) -> Seq<Token>
    decreases ss.len(),
{
    if ss.len() == 0 {
        seq![Token::End]
    } else {
        seq![Token::Text(ss[0])] + s_enc_texts(ss.drop_first())
    }
}

/// Reads a list of texts, up to its end marker.
pub open spec fn s_dec_texts(t: Seq<Token>, p: int) -> Option<(Seq<String>, int)>
    decreases t.len() - p,
    when 0 <= p <= t.len()
{
    if p >= t.len() {
        None
    } else if t[p] is End {
        Some((Seq::empty(), p + 1))
    } else {
        match s_dec_text(t, p) {
            Some((s, p1)) => {
                if p < p1 <= t.len() {
                    match s_dec_texts(t, p1) {
                        Some((rest, p2)) => Some((seq![s] + rest, p2)),
                        None => None,
                    }
                } else {
                    None
                }
            },
            None => None,
        }
    }
}

/// The serialized form of a version: its five components.
pub open spec fn s_enc_version(v: Version) -> Seq<Token> {
    seq![
        Token::Num(v.major),
        Token::Num(v.minor),
        Token::Num(v.patch),
        Token::Text(v.pre),
        Token::Text(v.build),
    ]
}

/// Reads a version.
pub open spec fn s_dec_version(t: Seq<Token>, p: int) -> Option<(Version, int)> {
    match s_dec_num(t, p) {
        Some((major, p1)) => match s_dec_num(t, p1) {
            Some((minor, p2)) => match s_dec_num(t, p2) {
                Some((patch, p3)) => match s_dec_text(t, p3) {
                    Some((pre, p4)) => match s_dec_text(t, p4) {
                        Some((build, p5)) => Some(
                            (Version { major, minor, patch, pre, build }, p5),
                        ),
                        None => None,
                    },
                    None => None,
                },
                None => None,
            },
            None => None,
        },
        None => None,
    }
}

/// The serialized form of a dependency: its seven fields in order.
pub open spec fn s_enc_dep(d: DepModel) -> Seq<Token> {
    seq![Token::Text(d.name), Token::Text(d.req)] + s_enc_texts(d.features) + seq![
        Token::Flag(d.optional),
        Token::Flag(d.default_features),
    ] + s_enc_opt_text(d.target) + s_enc_opt_text(d.kind)
}

/// Reads a dependency.
pub open spec fn s_dec_dep(t: Seq<Token>, p: int) -> Option<(DepModel, int)> {
    match s_dec_text(t, p) {
        Some((name, p1)) => match s_dec_text(t, p1) {
            Some((req, p2)) => match s_dec_texts(t, p2) {
                Some((features, p3)) => match s_dec_flag(t, p3) {
                    Some((optional, p4)) => match s_dec_flag(t, p4) {
                        Some((default_features, p5)) => match s_dec_opt_text(t, p5) {
                            Some((target, p6)) => match s_dec_opt_text(t, p6) {
                                Some((kind, p7)) => Some(
                                    (
                                        DepModel {
                                            name,
                                            req,
                                            features,
                                            optional,
                                            default_features,
                                            target,
                                            kind,
                                        },
                                        p7,
                                    ),
                                ),
                                None => None,
                            },
                            None => None,
                        },
                        None => None,
                    },
                    None => None,
                },
                None => None,
            },
            None => None,
        },
        None => None,
    }
}

/// Decoding an encoded optional text, wherever it stands in a stream, yields
/// it back.
pub proof fn lemma_rt_opt_text(pre: Seq<Token>, o: Option<String>, suf: Seq<Token>)
    ensures
        s_dec_opt_text(pre + s_enc_opt_text(o) + suf, pre.len() as int) == Some(
            (o, pre.len() as int + s_enc_opt_text(o).len() as int),
        ),
{
    let t = pre + s_enc_opt_text(o) + suf;
    match o {
        Option::None => {
            assert(t[pre.len() as int] == Token::Flag(false));
        },
        Option::Some(s) => {
            assert(t[pre.len() as int] == Token::Flag(true));
            assert(t[pre.len() as int + 1] == Token::Text(s));
        },
    }
}

/// Decoding an encoded text list, wherever it stands in a stream, yields it
/// back.
pub proof fn lemma_rt_texts(pre: Seq<Token>, ss: Seq<String>, suf: Seq<Token>)
    ensures
        s_dec_texts(pre + s_enc_texts(ss) + suf, pre.len() as int) == Some(
            (ss, pre.len() as int + s_enc_texts(ss).len() as int),
        ),
        s_enc_texts(ss).len() >= 1,
    decreases ss.len(),
{
    let t = pre + s_enc_texts(ss) + suf;
    if ss.len() == 0 {
        assert(t[pre.len() as int] == Token::End);
        assert(Seq::<String>::empty() =~= ss);
    } else {
        assert(t[pre.len() as int] == Token::Text(ss[0]));
        let pre2 = pre.push(Token::Text(ss[0]));
        assert(pre + s_enc_texts(ss) + suf =~= pre2 + s_enc_texts(ss.drop_first()) + suf);
        lemma_rt_texts(pre2, ss.drop_first(), suf);
        assert(seq![ss[0]] + ss.drop_first() =~= ss);
    }
}

/// Decoding an encoded version, wherever it stands in a stream, yields it
/// back.
pub proof fn lemma_rt_version(pre: Seq<Token>, v: Version, suf: Seq<Token>)
    ensures
        s_dec_version(pre + s_enc_version(v) + suf, pre.len() as int) == Some(
            (v, pre.len() as int + s_enc_version(v).len() as int),
        ),
{
    let t = pre + s_enc_version(v) + suf;
    assert(t[pre.len() as int] == Token::Num(v.major));
    assert(t[pre.len() as int + 1] == Token::Num(v.minor));
    assert(t[pre.len() as int + 2] == Token::Num(v.patch));
    assert(t[pre.len() as int + 3] == Token::Text(v.pre));
    assert(t[pre.len() as int + 4] == Token::Text(v.build));
}

/// Decoding an encoded dependency, wherever it stands in a stream, yields it
/// back.
#[verifier::rlimit(100)]
pub proof fn lemma_rt_dep(pre: Seq<Token>, d: DepModel, suf: Seq<Token>)
    ensures
        s_dec_dep(pre + s_enc_dep(d) + suf, pre.len() as int) == Some(
            (d, pre.len() as int + s_enc_dep(d).len() as int),
        ),
        s_enc_dep(d).len() >= 1,
{
    let t = pre + s_enc_dep(d) + suf;
    assert(t[pre.len() as int] == Token::Text(d.name));
    assert(t[pre.len() as int + 1] == Token::Text(d.req));
    let pre2 = pre.push(Token::Text(d.name)).push(Token::Text(d.req));
    assert(t =~= pre2 + s_enc_texts(d.features) + (seq![
        Token::Flag(d.optional),
        Token::Flag(d.default_features),
    ] + s_enc_opt_text(d.target) + s_enc_opt_text(d.kind) + suf));
    lemma_rt_texts(
        pre2,
        d.features,
        seq![Token::Flag(d.optional), Token::Flag(d.default_features)] + s_enc_opt_text(d.target)
            + s_enc_opt_text(d.kind) + suf,
    );
    let p3: int = pre2.len() as int + s_enc_texts(d.features).len() as int;
    assert(t[p3] == Token::Flag(d.optional));
    assert(t[p3 + 1] == Token::Flag(d.default_features));
    let pre3 = pre2 + s_enc_texts(d.features) + seq![
        Token::Flag(d.optional),
        Token::Flag(d.default_features),
    ];
    assert(t =~= pre3 + s_enc_opt_text(d.target) + (s_enc_opt_text(d.kind) + suf));
    lemma_rt_opt_text(pre3, d.target, s_enc_opt_text(d.kind) + suf);
    let pre4 = pre3 + s_enc_opt_text(d.target);
    assert(t =~= pre4 + s_enc_opt_text(d.kind) + suf);
    lemma_rt_opt_text(pre4, d.kind, suf);
}

/// The mathematical content of a `PackageIndex`.
pub open spec fn index_model(idx: PackageIndex) -> IndexModel {
    IndexModel { packages: idx.packages@.map_values(|p: Package| package_model(p)) }
}

/// The serialized form of one feature entry: its name, then what it enables.
pub open spec fn s_enc_feat(f: (String, Seq<String>)) -> Seq<Token> {
    seq![Token::Text(f.0)] + s_enc_texts(f.1)
}

/// Reads one feature entry.
pub open spec fn s_dec_feat(t: Seq<Token>, p: int) -> Option<((String, Seq<String>), int)> {
    match s_dec_text(t, p) {
        Some((name, p1)) => match s_dec_texts(t, p1) {
            Some((vals, p2)) => Some(((name, vals), p2)),
            None => None,
        },
        None => None,
    }
}

/// The serialized form of a feature list: the entries, then an end marker.
pub open spec fn s_enc_feats(fs: Seq<(String, Seq<String>)>) -> Seq<Token>
    decreases fs.len(),
{
    if fs.len() == 0 {
        seq![Token::End]
    } else {
        s_enc_feat(fs[0]) + s_enc_feats(fs.drop_first())
    }
}

/// Reads a feature list, up to its end marker.
pub open spec fn s_dec_feats(t: Seq<Token>, p: int) -> Option<(Seq<(String, Seq<String>)>, int)>
    decreases t.len() - p,
    when 0 <= p <= t.len()
{
    if p >= t.len() {
        None
    } else if t[p] is End {
        Some((Seq::empty(), p + 1))
    } else {
        match s_dec_feat(t, p) {
            Some((f, p1)) => {
                if p < p1 <= t.len() {
                    match s_dec_feats(t, p1) {
                        Some((rest, p2)) => Some((seq![f] + rest, p2)),
                        None => None,
                    }
                } else {
                    None
                }
            },
            None => None,
        }
    }
}

/// The serialized form of a dependency list: the items, then an end marker.
pub open spec fn s_enc_deps(ds: Seq<DepModel>) -> Seq<Token>
    decreases ds.len(),
{
    if ds.len() == 0 {
        seq![Token::End]
    } else {
        s_enc_dep(ds[0]) + s_enc_deps(ds.drop_first())
    }
}

/// Reads a dependency list, up to its end marker.
pub open spec fn s_dec_deps(t: Seq<Token>, p: int) -> Option<(Seq<DepModel>, int)>
    decreases t.len() - p,
    when 0 <= p <= t.len()
{
    if p >= t.len() {
        None
    } else if t[p] is End {
        Some((Seq::empty(), p + 1))
    } else {
        match s_dec_dep(t, p) {
            Some((d, p1)) => {
                if p < p1 <= t.len() {
                    match s_dec_deps(t, p1) {
                        Some((rest, p2)) => Some((seq![d] + rest, p2)),
                        None => None,
                    }
                } else {
                    None
                }
            },
            None => None,
        }
    }
}

/// The serialized form of a version record: its six fields in order.
pub open spec fn s_enc_record(r: RecordModel) -> Seq<Token> {
    seq![Token::Text(r.name)] + s_enc_version(r.version) + s_enc_deps(r.deps) + seq![
        Token::Text(r.cksum),
    ] + s_enc_feats(r.features) + seq![Token::Flag(r.yanked)]
}

/// Reads a version record.
pub open spec fn s_dec_record(t: Seq<Token>, p: int) -> Option<(RecordModel, int)> {
    match s_dec_text(t, p) {
        Some((name, p1)) => match s_dec_version(t, p1) {
            Some((version, p2)) => match s_dec_deps(t, p2) {
                Some((deps, p3)) => match s_dec_text(t, p3) {
                    Some((cksum, p4)) => match s_dec_feats(t, p4) {
                        Some((features, p5)) => match s_dec_flag(t, p5) {
                            Some((yanked, p6)) => Some(
                                (RecordModel { name, version, deps, cksum, features, yanked }, p6),
                            ),
                            None => None,
                        },
                        None => None,
                    },
                    None => None,
                },
                None => None,
            },
            None => None,
        },
        None => None,
    }
}

/// The serialized form of a record list: the items, then an end marker.
pub open spec fn s_enc_records(rs: Seq<RecordModel>) -> Seq<Token>
    decreases rs.len(),
{
    if rs.len() == 0 {
        seq![Token::End]
    } else {
        s_enc_record(rs[0]) + s_enc_records(rs.drop_first())
    }
}

/// Reads a record list, up to its end marker.
pub open spec fn s_dec_records(t: Seq<Token>, p: int) -> Option<(Seq<RecordModel>, int)>
    decreases t.len() - p,
    when 0 <= p <= t.len()
{
    if p >= t.len() {
        None
    } else if t[p] is End {
        Some((Seq::empty(), p + 1))
    } else {
        match s_dec_record(t, p) {
            Some((r, p1)) => {
                if p < p1 <= t.len() {
                    match s_dec_records(t, p1) {
                        Some((rest, p2)) => Some((seq![r] + rest, p2)),
                        None => None,
                    }
                } else {
                    None
                }
            },
            None => None,
        }
    }
}

/// The serialized form of a package: its name, then its records.
pub open spec fn s_enc_package(p: PackageModel) -> Seq<Token> {
    seq![Token::Text(p.name)] + s_enc_records(p.versions)
}

/// Reads a package.
pub open spec fn s_dec_package(t: Seq<Token>, p: int) -> Option<(PackageModel, int)> {
    match s_dec_text(t, p) {
        Some((name, p1)) => match s_dec_records(t, p1) {
            Some((versions, p2)) => Some((PackageModel { name, versions }, p2)),
            None => None,
        },
        None => None,
    }
}

/// The serialized form of a package list: the items, then an end marker.
pub open spec fn s_enc_packages(ps: Seq<PackageModel>) -> Seq<Token>
    decreases ps.len(),
{
    if ps.len() == 0 {
        seq![Token::End]
    } else {
        s_enc_package(ps[0]) + s_enc_packages(ps.drop_first())
    }
}

/// Reads a package list, up to its end marker.
pub open spec fn s_dec_packages(t: Seq<Token>, p: int) -> Option<(Seq<PackageModel>, int)>
    decreases t.len() - p,
    when 0 <= p <= t.len()
{
    if p >= t.len() {
        None
    } else if t[p] is End {
        Some((Seq::empty(), p + 1))
    } else {
        match s_dec_package(t, p) {
            Some((pk, p1)) => {
                if p < p1 <= t.len() {
                    match s_dec_packages(t, p1) {
                        Some((rest, p2)) => Some((seq![pk] + rest, p2)),
                        None => None,
                    }
                } else {
                    None
                }
            },
            None => None,
        }
    }
}

/// The serialized form of a whole package index.
pub open spec fn s_enc_index(ix: IndexModel) -> Seq<Token> {
    s_enc_packages(ix.packages)
}

/// Reads a whole package index.
pub open spec fn s_dec_index(t: Seq<Token>, p: int) -> Option<(IndexModel, int)> {
    match s_dec_packages(t, p) {
        Some((packages, p1)) => Some((IndexModel { packages }, p1)),
        None => None,
    }
}

/// Decoding an encoded feature entry, wherever it stands in a stream, yields
/// it back.
pub proof fn lemma_rt_feat(pre: Seq<Token>, f: (String, Seq<String>), suf: Seq<Token>)
    ensures
        s_dec_feat(pre + s_enc_feat(f) + suf, pre.len() as int) == Some(
            (f, pre.len() as int + s_enc_feat(f).len() as int),
        ),
        s_enc_feat(f).len() >= 1,
        s_enc_feat(f)[0] == Token::Text(f.0),
{
    let t = pre + s_enc_feat(f) + suf;
    assert(t[pre.len() as int] == Token::Text(f.0));
    let pre2 = pre.push(Token::Text(f.0));
    assert(t =~= pre2 + s_enc_texts(f.1) + suf);
    lemma_rt_texts(pre2, f.1, suf);
}

/// Decoding an encoded feature list, wherever it stands in a stream, yields
/// it back.
pub proof fn lemma_rt_feats(pre: Seq<Token>, fs: Seq<(String, Seq<String>)>, suf: Seq<Token>)
    ensures
        s_dec_feats(pre + s_enc_feats(fs) + suf, pre.len() as int) == Some(
            (fs, pre.len() as int + s_enc_feats(fs).len() as int),
        ),
        s_enc_feats(fs).len() >= 1,
    decreases fs.len(),
{
    let t = pre + s_enc_feats(fs) + suf;
    if fs.len() == 0 {
        assert(t[pre.len() as int] == Token::End);
        assert(Seq::<(String, Seq<String>)>::empty() =~= fs);
    } else {
        lemma_rt_feat(pre, fs[0], s_enc_feats(fs.drop_first()) + suf);
        assert(t =~= pre + s_enc_feat(fs[0]) + (s_enc_feats(fs.drop_first()) + suf));
        assert(t[pre.len() as int] == Token::Text(fs[0].0));
        let pre2 = pre + s_enc_feat(fs[0]);
        assert(t =~= pre2 + s_enc_feats(fs.drop_first()) + suf);
        lemma_rt_feats(pre2, fs.drop_first(), suf);
        assert(seq![fs[0]] + fs.drop_first() =~= fs);
    }
}

/// Decoding an encoded dependency list, wherever it stands in a stream,
/// yields it back.
pub proof fn lemma_rt_deps(pre: Seq<Token>, ds: Seq<DepModel>, suf: Seq<Token>)
    ensures
        s_dec_deps(pre + s_enc_deps(ds) + suf, pre.len() as int) == Some(
            (ds, pre.len() as int + s_enc_deps(ds).len() as int),
        ),
        s_enc_deps(ds).len() >= 1,
    decreases ds.len(),
{
    let t = pre + s_enc_deps(ds) + suf;
    if ds.len() == 0 {
        assert(t[pre.len() as int] == Token::End);
        assert(Seq::<DepModel>::empty() =~= ds);
    } else {
        lemma_rt_dep(pre, ds[0], s_enc_deps(ds.drop_first()) + suf);
        assert(t =~= pre + s_enc_dep(ds[0]) + (s_enc_deps(ds.drop_first()) + suf));
        assert(s_enc_dep(ds[0])[0] == Token::Text(ds[0].name));
        assert(t[pre.len() as int] == Token::Text(ds[0].name));
        let pre2 = pre + s_enc_dep(ds[0]);
        assert(t =~= pre2 + s_enc_deps(ds.drop_first()) + suf);
        lemma_rt_deps(pre2, ds.drop_first(), suf);
        assert(seq![ds[0]] + ds.drop_first() =~= ds);
    }
}

/// Decoding an encoded version record, wherever it stands in a stream,
/// yields it back.
#[verifier::rlimit(100)]
pub proof fn lemma_rt_record(pre: Seq<Token>, r: RecordModel, suf: Seq<Token>)
    ensures
        s_dec_record(pre + s_enc_record(r) + suf, pre.len() as int) == Some(
            (r, pre.len() as int + s_enc_record(r).len() as int),
        ),
        s_enc_record(r).len() >= 1,
        s_enc_record(r)[0] == Token::Text(r.name),
{
    let t = pre + s_enc_record(r) + suf;
    assert(t[pre.len() as int] == Token::Text(r.name));
    let pre2 = pre.push(Token::Text(r.name));
    assert(t =~= pre2 + s_enc_version(r.version) + (s_enc_deps(r.deps) + seq![
        Token::Text(r.cksum),
    ] + s_enc_feats(r.features) + seq![Token::Flag(r.yanked)] + suf));
    lemma_rt_version(
        pre2,
        r.version,
        s_enc_deps(r.deps) + seq![Token::Text(r.cksum)] + s_enc_feats(r.features) + seq![
            Token::Flag(r.yanked),
        ] + suf,
    );
    let pre3 = pre2 + s_enc_version(r.version);
    assert(t =~= pre3 + s_enc_deps(r.deps) + (seq![Token::Text(r.cksum)] + s_enc_feats(r.features)
        + seq![Token::Flag(r.yanked)] + suf));
    lemma_rt_deps(
        pre3,
        r.deps,
        seq![Token::Text(r.cksum)] + s_enc_feats(r.features) + seq![Token::Flag(r.yanked)] + suf,
    );
    let p4: int = pre3.len() as int + s_enc_deps(r.deps).len() as int;
    assert(t[p4] == Token::Text(r.cksum));
    let pre4 = pre3 + s_enc_deps(r.deps) + seq![Token::Text(r.cksum)];
    assert(t =~= pre4 + s_enc_feats(r.features) + (seq![Token::Flag(r.yanked)] + suf));
    lemma_rt_feats(pre4, r.features, seq![Token::Flag(r.yanked)] + suf);
    let p5: int = pre4.len() as int + s_enc_feats(r.features).len() as int;
    assert(t[p5] == Token::Flag(r.yanked));
}

/// Decoding an encoded record list, wherever it stands in a stream, yields
/// it back.
#[verifier::rlimit(100)]
pub proof fn lemma_rt_records(pre: Seq<Token>, rs: Seq<RecordModel>, suf: Seq<Token>)
    ensures
        s_dec_records(pre + s_enc_records(rs) + suf, pre.len() as int) == Some(
            (rs, pre.len() as int + s_enc_records(rs).len() as int),
        ),
        s_enc_records(rs).len() >= 1,
    decreases rs.len(),
{
    let t = pre + s_enc_records(rs) + suf;
    if rs.len() == 0 {
        assert(t[pre.len() as int] == Token::End);
        assert(Seq::<RecordModel>::empty() =~= rs);
    } else {
        lemma_rt_record(pre, rs[0], s_enc_records(rs.drop_first()) + suf);
        assert(t =~= pre + s_enc_record(rs[0]) + (s_enc_records(rs.drop_first()) + suf));
        assert(t[pre.len() as int] == Token::Text(rs[0].name));
        let pre2 = pre + s_enc_record(rs[0]);
        assert(t =~= pre2 + s_enc_records(rs.drop_first()) + suf);
        lemma_rt_records(pre2, rs.drop_first(), suf);
        assert(seq![rs[0]] + rs.drop_first() =~= rs);
    }
}

/// Decoding an encoded package, wherever it stands in a stream, yields it
/// back.
pub proof fn lemma_rt_package(pre: Seq<Token>, p: PackageModel, suf: Seq<Token>)
    ensures
        s_dec_package(pre + s_enc_package(p) + suf, pre.len() as int) == Some(
            (p, pre.len() as int + s_enc_package(p).len() as int),
        ),
        s_enc_package(p).len() >= 1,
        s_enc_package(p)[0] == Token::Text(p.name),
{
    let t = pre + s_enc_package(p) + suf;
    assert(t[pre.len() as int] == Token::Text(p.name));
    let pre2 = pre.push(Token::Text(p.name));
    assert(t =~= pre2 + s_enc_records(p.versions) + suf);
    lemma_rt_records(pre2, p.versions, suf);
}

/// Decoding an encoded package list, wherever it stands in a stream, yields
/// it back.
#[verifier::rlimit(100)]
pub proof fn lemma_rt_packages(pre: Seq<Token>, ps: Seq<PackageModel>, suf: Seq<Token>)
    ensures
        s_dec_packages(pre + s_enc_packages(ps) + suf, pre.len() as int) == Some(
            (ps, pre.len() as int + s_enc_packages(ps).len() as int),
        ),
        s_enc_packages(ps).len() >= 1,
    decreases ps.len(),
{
    let t = pre + s_enc_packages(ps) + suf;
    if ps.len() == 0 {
        assert(t[pre.len() as int] == Token::End);
        assert(Seq::<PackageModel>::empty() =~= ps);
    } else {
        lemma_rt_package(pre, ps[0], s_enc_packages(ps.drop_first()) + suf);
        assert(t =~= pre + s_enc_package(ps[0]) + (s_enc_packages(ps.drop_first()) + suf));
        assert(t[pre.len() as int] == Token::Text(ps[0].name));
        let pre2 = pre + s_enc_package(ps[0]);
        assert(t =~= pre2 + s_enc_packages(ps.drop_first()) + suf);
        lemma_rt_packages(pre2, ps.drop_first(), suf);
        assert(seq![ps[0]] + ps.drop_first() =~= ps);
    }
}

/// Law: serializing a package index and deserializing the result yields the
/// index back, every package, record and dependency equal field for field.
pub proof fn lemma_index_round_trip(ix: IndexModel)
    ensures
        s_dec_index(s_enc_index(ix), 0) == Some((ix, s_enc_index(ix).len() as int)),
{
    lemma_rt_packages(Seq::empty(), ix.packages, Seq::empty());
    assert(Seq::<Token>::empty() + s_enc_packages(ix.packages) + Seq::<Token>::empty()
        =~= s_enc_index(ix));
}

/// Appends the serialized form of an optional text.
fn encode_opt_text(out: &mut Vec<Token>, o: &Option<String>)
    ensures
        final(out)@ == old(out)@ + s_enc_opt_text(*o),
{
    match o {
        Option::None => out.push(Token::Flag(false)),
        Option::Some(s) => {
            out.push(Token::Flag(true));
            out.push(Token::Text(s.clone()));
        },
    }
    proof {
        assert(out@ =~= old(out)@ + s_enc_opt_text(*o));
    }
}

/// Appends the serialized form of the texts from position `i` on, with the
/// end marker.
fn encode_texts_from(out: &mut Vec<Token>, ss: &Vec<String>, i: usize)
    requires
        i <= ss@.len(),
    ensures
        final(out)@ == old(out)@ + s_enc_texts(ss@.skip(i as int)),
    decreases ss@.len() - i,
{
    if i == ss.len() {
        out.push(Token::End);
        proof {
            assert(ss@.skip(i as int) =~= Seq::<String>::empty());
            assert(out@ =~= old(out)@ + s_enc_texts(ss@.skip(i as int)));
        }
    } else {
        out.push(Token::Text(ss[i].clone()));
        encode_texts_from(out, ss, i + 1);
        proof {
            assert(ss@.skip(i as int)[0] == ss@[i as int]);
            assert(ss@.skip(i as int).drop_first() =~= ss@.skip(i as int + 1));
            assert(out@ =~= old(out)@ + s_enc_texts(ss@.skip(i as int)));
        }
    }
}

/// Appends the serialized form of a text list.
fn encode_texts(out: &mut Vec<Token>, ss: &Vec<String>)
    ensures
        final(out)@ == old(out)@ + s_enc_texts(ss@),
{
    encode_texts_from(out, ss, 0);
    proof {
        assert(ss@.skip(0) =~= ss@);
    }
}

/// Appends the serialized form of a version.
fn encode_version(out: &mut Vec<Token>, v: &Version)
    ensures
        final(out)@ == old(out)@ + s_enc_version(*v),
{
    out.push(Token::Num(v.major));
    out.push(Token::Num(v.minor));
    out.push(Token::Num(v.patch));
    out.push(Token::Text(v.pre.clone()));
    out.push(Token::Text(v.build.clone()));
    proof {
        assert(out@ =~= old(out)@ + s_enc_version(*v));
    }
}

/// Appends the serialized form of a dependency.
fn encode_dep(out: &mut Vec<Token>, d: &Dependency)
    ensures
        final(out)@ == old(out)@ + s_enc_dep(dep_model(*d)),
{
    out.push(Token::Text(d.name.clone()));
    out.push(Token::Text(d.req.clone()));
    encode_texts(out, &d.features);
    out.push(Token::Flag(d.optional));
    out.push(Token::Flag(d.default_features));
    encode_opt_text(out, &d.target);
    encode_opt_text(out, &d.kind);
    proof {
        assert(out@ =~= old(out)@ + s_enc_dep(dep_model(*d)));
    }
}

/// Appends the serialized form of the dependencies from position `i` on.
fn encode_deps_from(out: &mut Vec<Token>, ds: &Vec<Dependency>, i: usize)
    requires
        i <= ds@.len(),
    ensures
        final(out)@ == old(out)@ + s_enc_deps(
            ds@.map_values(|d: Dependency| dep_model(d)).skip(i as int),
        ),
    decreases ds@.len() - i,
{
    let ghost models = ds@.map_values(|d: Dependency| dep_model(d));
    if i == ds.len() {
        out.push(Token::End);
        proof {
            assert(models.skip(i as int) =~= Seq::<DepModel>::empty());
            assert(out@ =~= old(out)@ + s_enc_deps(models.skip(i as int)));
        }
    } else {
        encode_dep(out, &ds[i]);
        encode_deps_from(out, ds, i + 1);
        proof {
            assert(models.skip(i as int)[0] == dep_model(ds@[i as int]));
            assert(models.skip(i as int).drop_first() =~= models.skip(i as int + 1));
            assert(out@ =~= old(out)@ + s_enc_deps(models.skip(i as int)));
        }
    }
}

/// Appends the serialized form of one feature entry.
fn encode_feat(out: &mut Vec<Token>, f: &(String, Vec<String>))
    ensures
        final(out)@ == old(out)@ + s_enc_feat((f.0, f.1@)),
{
    out.push(Token::Text(f.0.clone()));
    encode_texts(out, &f.1);
    proof {
        assert(out@ =~= old(out)@ + s_enc_feat((f.0, f.1@)));
    }
}

/// Appends the serialized form of the feature entries from position `i` on.
fn encode_feats_from(out: &mut Vec<Token>, fs: &Vec<(String, Vec<String>)>, i: usize)
    requires
        i <= fs@.len(),
    ensures
        final(out)@ == old(out)@ + s_enc_feats(
            fs@.map_values(|f: (String, Vec<String>)| (f.0, f.1@)).skip(i as int),
        ),
    decreases fs@.len() - i,
{
    let ghost models = fs@.map_values(|f: (String, Vec<String>)| (f.0, f.1@));
    if i == fs.len() {
        out.push(Token::End);
        proof {
            assert(models.skip(i as int) =~= Seq::<(String, Seq<String>)>::empty());
            assert(out@ =~= old(out)@ + s_enc_feats(models.skip(i as int)));
        }
    } else {
        encode_feat(out, &fs[i]);
        encode_feats_from(out, fs, i + 1);
        proof {
            assert(models.skip(i as int)[0] == (fs@[i as int].0, fs@[i as int].1@));
            assert(models.skip(i as int).drop_first() =~= models.skip(i as int + 1));
            assert(out@ =~= old(out)@ + s_enc_feats(models.skip(i as int)));
        }
    }
}

/// Appends the serialized form of a version record.
fn encode_record(out: &mut Vec<Token>, r: &VersionRecord)
    ensures
        final(out)@ == old(out)@ + s_enc_record(record_model(*r)),
{
    out.push(Token::Text(r.name.clone()));
    encode_version(out, &r.version);
    encode_deps_from(out, &r.deps, 0);
    out.push(Token::Text(r.cksum.clone()));
    encode_feats_from(out, &r.features, 0);
    out.push(Token::Flag(r.yanked));
    proof {
        let m = record_model(*r);
        assert(m.deps =~= r.deps@.map_values(|d: Dependency| dep_model(d)).skip(0));
        assert(m.features =~= r.features@.map_values(|f: (String, Vec<String>)| (f.0, f.1@)).skip(
            0,
        ));
        assert(out@ =~= old(out)@ + s_enc_record(m));
    }
}

/// Appends the serialized form of the records from position `i` on.
fn encode_records_from(out: &mut Vec<Token>, rs: &Vec<VersionRecord>, i: usize)
    requires
        i <= rs@.len(),
    ensures
        final(out)@ == old(out)@ + s_enc_records(
            rs@.map_values(|r: VersionRecord| record_model(r)).skip(i as int),
        ),
    decreases rs@.len() - i,
{
    let ghost models = rs@.map_values(|r: VersionRecord| record_model(r));
    if i == rs.len() {
        out.push(Token::End);
        proof {
            assert(models.skip(i as int) =~= Seq::<RecordModel>::empty());
            assert(out@ =~= old(out)@ + s_enc_records(models.skip(i as int)));
        }
    } else {
        encode_record(out, &rs[i]);
        encode_records_from(out, rs, i + 1);
        proof {
            assert(models.skip(i as int)[0] == record_model(rs@[i as int]));
            assert(models.skip(i as int).drop_first() =~= models.skip(i as int + 1));
            assert(out@ =~= old(out)@ + s_enc_records(models.skip(i as int)));
        }
    }
}

/// Appends the serialized form of a package.
fn encode_package(out: &mut Vec<Token>, p: &Package)
    ensures
        final(out)@ == old(out)@ + s_enc_package(package_model(*p)),
{
    out.push(Token::Text(p.name.clone()));
    encode_records_from(out, &p.versions, 0);
    proof {
        let m = package_model(*p);
        assert(m.versions =~= p.versions@.map_values(|r: VersionRecord| record_model(r)).skip(0));
        assert(out@ =~= old(out)@ + s_enc_package(m));
    }
}

/// Appends the serialized form of the packages from position `i` on.
fn encode_packages_from(out: &mut Vec<Token>, ps: &Vec<Package>, i: usize)
    requires
        i <= ps@.len(),
    ensures
        final(out)@ == old(out)@ + s_enc_packages(
            ps@.map_values(|p: Package| package_model(p)).skip(i as int),
        ),
    decreases ps@.len() - i,
{
    let ghost models = ps@.map_values(|p: Package| package_model(p));
    if i == ps.len() {
        out.push(Token::End);
        proof {
            assert(models.skip(i as int) =~= Seq::<PackageModel>::empty());
            assert(out@ =~= old(out)@ + s_enc_packages(models.skip(i as int)));
        }
    } else {
        encode_package(out, &ps[i]);
        encode_packages_from(out, ps, i + 1);
        proof {
            assert(models.skip(i as int)[0] == package_model(ps@[i as int]));
            assert(models.skip(i as int).drop_first() =~= models.skip(i as int + 1));
            assert(out@ =~= old(out)@ + s_enc_packages(models.skip(i as int)));
        }
    }
}

/// Serializes a whole package index into its token stream.
pub fn encode_index(idx: &PackageIndex) -> (out: Vec<Token>)
    ensures
        out@ == s_enc_index(index_model(*idx)),
{
    let mut out: Vec<Token> = Vec::new();
    encode_packages_from(&mut out, &idx.packages, 0);
    proof {
        let m = index_model(*idx);
        assert(m.packages =~= idx.packages@.map_values(|p: Package| package_model(p)).skip(0));
        assert(out@ =~= s_enc_index(m));
    }
    out
}

/// Reads one number token.
fn decode_num(toks: &Vec<Token>, pos: usize) -> (r: Option<(u64, usize)>)
    ensures
        match r {
            Some(xp) => pos < xp.1 <= toks@.len() && s_dec_num(toks@, pos as int) == Some(
                (xp.0, xp.1 as int),
            ),
            None => s_dec_num(toks@, pos as int) is None,
        },
{
    if pos < toks.len() {
        match &toks[pos] {
            Token::Num(x) => Some((*x, pos + 1)),
            _ => None,
        }
    } else {
        None
    }
}

/// Reads one flag token.
fn decode_flag(toks: &Vec<Token>, pos: usize) -> (r: Option<(bool, usize)>)
    ensures
        match r {
            Some(xp) => pos < xp.1 <= toks@.len() && s_dec_flag(toks@, pos as int) == Some(
                (xp.0, xp.1 as int),
            ),
            None => s_dec_flag(toks@, pos as int) is None,
        },
{
    if pos < toks.len() {
        match &toks[pos] {
            Token::Flag(x) => Some((*x, pos + 1)),
            _ => None,
        }
    } else {
        None
    }
}

/// Reads one text token.
fn decode_text(toks: &Vec<Token>, pos: usize) -> (r: Option<(String, usize)>)
    ensures
        match r {
            Some(xp) => pos < xp.1 <= toks@.len() && s_dec_text(toks@, pos as int) == Some(
                (xp.0, xp.1 as int),
            ),
            None => s_dec_text(toks@, pos as int) is None,
        },
{
    if pos < toks.len() {
        match &toks[pos] {
            Token::Text(s) => Some((s.clone(), pos + 1)),
            _ => None,
        }
    } else {
        None
    }
}

/// Reads an optional text.
fn decode_opt_text(toks: &Vec<Token>, pos: usize) -> (r: Option<(Option<String>, usize)>)
    ensures
        match r {
            Some(xp) => pos < xp.1 <= toks@.len() && s_dec_opt_text(toks@, pos as int) == Some(
                (xp.0, xp.1 as int),
            ),
            None => s_dec_opt_text(toks@, pos as int) is None,
        },
{
    match decode_flag(toks, pos) {
        Some((present, p1)) => {
            if !present {
                Some((None, p1))
            } else {
                match decode_text(toks, p1) {
                    Some((s, p2)) => Some((Some(s), p2)),
                    None => None,
                }
            }
        },
        None => None,
    }
}

/// Reads a text list.
fn decode_texts(toks: &Vec<Token>, pos: usize) -> (r: Option<(Vec<String>, usize)>)
    requires
        pos <= toks@.len(),
    ensures
        match r {
            Some(xp) => pos < xp.1 <= toks@.len() && s_dec_texts(toks@, pos as int) == Some(
                (xp.0@, xp.1 as int),
            ),
            None => s_dec_texts(toks@, pos as int) is None,
        },
    decreases toks@.len() - pos,
{
    if pos >= toks.len() {
        return None;
    }
    let at_end = match &toks[pos] {
        Token::End => true,
        _ => false,
    };
    if at_end {
        let empty: Vec<String> = Vec::new();
        proof {
            assert(empty@ =~= Seq::<String>::empty());
        }
        return Some((empty, pos + 1));
    }
    match decode_text(toks, pos) {
        Some((s, p1)) => match decode_texts(toks, p1) {
            Some((rest, p2)) => {
                let mut items = rest;
                let ghost tail = items@;
                items.insert(0, s);
                proof {
                    assert(items@ =~= seq![s] + tail);
                }
                Some((items, p2))
            },
            None => None,
        },
        None => None,
    }
}

/// Reads a dependency.
fn decode_dep(toks: &Vec<Token>, pos: usize) -> (r: Option<(Dependency, usize)>)
    ensures
        match r {
            Some(xp) => pos < xp.1 <= toks@.len() && s_dec_dep(toks@, pos as int) == Some(
                (dep_model(xp.0), xp.1 as int),
            ),
            None => s_dec_dep(toks@, pos as int) is None,
        },
{
    let (name, p1) = match decode_text(toks, pos) {
        Some(x) => x,
        None => {
            return None;
        },
    };
    let (req, p2) = match decode_text(toks, p1) {
        Some(x) => x,
        None => {
            return None;
        },
    };
    let (features, p3) = match decode_texts(toks, p2) {
        Some(x) => x,
        None => {
            return None;
        },
    };
    let (optional, p4) = match decode_flag(toks, p3) {
        Some(x) => x,
        None => {
            return None;
        },
    };
    let (default_features, p5) = match decode_flag(toks, p4) {
        Some(x) => x,
        None => {
            return None;
        },
    };
    let (target, p6) = match decode_opt_text(toks, p5) {
        Some(x) => x,
        None => {
            return None;
        },
    };
    let (kind, p7) = match decode_opt_text(toks, p6) {
        Some(x) => x,
        None => {
            return None;
        },
    };
    Some((Dependency { name, req, features, optional, default_features, target, kind }, p7))
}

/// Reads a dependency list.
fn decode_deps(toks: &Vec<Token>, pos: usize) -> (r: Option<(Vec<Dependency>, usize)>)
    requires
        pos <= toks@.len(),
    ensures
        match r {
            Some(xp) => pos < xp.1 <= toks@.len() && s_dec_deps(toks@, pos as int) == Some(
                (xp.0@.map_values(|d: Dependency| dep_model(d)), xp.1 as int),
            ),
            None => s_dec_deps(toks@, pos as int) is None,
        },
    decreases toks@.len() - pos,
{
    if pos >= toks.len() {
        return None;
    }
    let at_end = match &toks[pos] {
        Token::End => true,
        _ => false,
    };
    if at_end {
        let empty: Vec<Dependency> = Vec::new();
        proof {
            assert(empty@.map_values(|d: Dependency| dep_model(d)) =~= Seq::<DepModel>::empty());
        }
        return Some((empty, pos + 1));
    }
    match decode_dep(toks, pos) {
        Some((d, p1)) => match decode_deps(toks, p1) {
            Some((rest, p2)) => {
                let mut items = rest;
                let ghost tail = items@;
                items.insert(0, d);
                proof {
                    assert(items@ =~= seq![d] + tail);
                    assert(items@.map_values(|x: Dependency| dep_model(x)) =~= seq![dep_model(d)]
                        + tail.map_values(|x: Dependency| dep_model(x)));
                }
                Some((items, p2))
            },
            None => None,
        },
        None => None,
    }
}

/// Reads one feature entry.
fn decode_feat(toks: &Vec<Token>, pos: usize) -> (r: Option<((String, Vec<String>), usize)>)
    ensures
        match r {
            Some(xp) => pos < xp.1 <= toks@.len() && s_dec_feat(toks@, pos as int) == Some(
                ((xp.0.0, xp.0.1@), xp.1 as int),
            ),
            None => s_dec_feat(toks@, pos as int) is None,
        },
{
    let (name, p1) = match decode_text(toks, pos) {
        Some(x) => x,
        None => {
            return None;
        },
    };
    let (vals, p2) = match decode_texts(toks, p1) {
        Some(x) => x,
        None => {
            return None;
        },
    };
    Some(((name, vals), p2))
}

/// Reads a feature list.
fn decode_feats(toks: &Vec<Token>, pos: usize) -> (r: Option<(Vec<(String, Vec<String>)>, usize)>)
    requires
        pos <= toks@.len(),
    ensures
        match r {
            Some(xp) => pos < xp.1 <= toks@.len() && s_dec_feats(toks@, pos as int) == Some(
                (xp.0@.map_values(|f: (String, Vec<String>)| (f.0, f.1@)), xp.1 as int),
            ),
            None => s_dec_feats(toks@, pos as int) is None,
        },
    decreases toks@.len() - pos,
{
    if pos >= toks.len() {
        return None;
    }
    let at_end = match &toks[pos] {
        Token::End => true,
        _ => false,
    };
    if at_end {
        let empty: Vec<(String, Vec<String>)> = Vec::new();
        proof {
            assert(empty@.map_values(|f: (String, Vec<String>)| (f.0, f.1@)) =~= Seq::<
                (String, Seq<String>),
            >::empty());
        }
        return Some((empty, pos + 1));
    }
    match decode_feat(toks, pos) {
        Some((f, p1)) => match decode_feats(toks, p1) {
            Some((rest, p2)) => {
                let mut items = rest;
                let ghost tail = items@;
                items.insert(0, f);
                proof {
                    assert(items@ =~= seq![f] + tail);
                    assert(items@.map_values(|x: (String, Vec<String>)| (x.0, x.1@)) =~= seq![
                        (f.0, f.1@),
                    ] + tail.map_values(|x: (String, Vec<String>)| (x.0, x.1@)));
                }
                Some((items, p2))
            },
            None => None,
        },
        None => None,
    }
}

/// Reads a version record.
fn decode_record(toks: &Vec<Token>, pos: usize) -> (r: Option<(VersionRecord, usize)>)
    ensures
        match r {
            Some(xp) => pos < xp.1 <= toks@.len() && s_dec_record(toks@, pos as int) == Some(
                (record_model(xp.0), xp.1 as int),
            ),
            None => s_dec_record(toks@, pos as int) is None,
        },
{
    let (name, p1) = match decode_text(toks, pos) {
        Some(x) => x,
        None => {
            return None;
        },
    };
    let (major, q1) = match decode_num(toks, p1) {
        Some(x) => x,
        None => {
            return None;
        },
    };
    let (minor, q2) = match decode_num(toks, q1) {
        Some(x) => x,
        None => {
            return None;
        },
    };
    let (patch, q3) = match decode_num(toks, q2) {
        Some(x) => x,
        None => {
            return None;
        },
    };
    let (pre, q4) = match decode_text(toks, q3) {
        Some(x) => x,
        None => {
            return None;
        },
    };
    let (build, p2) = match decode_text(toks, q4) {
        Some(x) => x,
        None => {
            return None;
        },
    };
    let version = Version { major, minor, patch, pre, build };
    let (deps, p3) = match decode_deps(toks, p2) {
        Some(x) => x,
        None => {
            return None;
        },
    };
    let (cksum, p4) = match decode_text(toks, p3) {
        Some(x) => x,
        None => {
            return None;
        },
    };
    let (features, p5) = match decode_feats(toks, p4) {
        Some(x) => x,
        None => {
            return None;
        },
    };
    let (yanked, p6) = match decode_flag(toks, p5) {
        Some(x) => x,
        None => {
            return None;
        },
    };
    Some((VersionRecord { name, version, deps, cksum, features, yanked }, p6))
}

/// Reads a record list.
fn decode_records(toks: &Vec<Token>, pos: usize) -> (r: Option<(Vec<VersionRecord>, usize)>)
    requires
        pos <= toks@.len(),
    ensures
        match r {
            Some(xp) => pos < xp.1 <= toks@.len() && s_dec_records(toks@, pos as int) == Some(
                (xp.0@.map_values(|v: VersionRecord| record_model(v)), xp.1 as int),
            ),
            None => s_dec_records(toks@, pos as int) is None,
        },
    decreases toks@.len() - pos,
{
    if pos >= toks.len() {
        return None;
    }
    let at_end = match &toks[pos] {
        Token::End => true,
        _ => false,
    };
    if at_end {
        let empty: Vec<VersionRecord> = Vec::new();
        proof {
            assert(empty@.map_values(|v: VersionRecord| record_model(v)) =~= Seq::<
                RecordModel,
            >::empty());
        }
        return Some((empty, pos + 1));
    }
    match decode_record(toks, pos) {
        Some((v, p1)) => match decode_records(toks, p1) {
            Some((rest, p2)) => {
                let mut items = rest;
                let ghost tail = items@;
                items.insert(0, v);
                proof {
                    assert(items@ =~= seq![v] + tail);
                    assert(items@.map_values(|x: VersionRecord| record_model(x)) =~= seq![
                        record_model(v),
                    ] + tail.map_values(|x: VersionRecord| record_model(x)));
                }
                Some((items, p2))
            },
            None => None,
        },
        None => None,
    }
}

/// Reads a package.
fn decode_package(toks: &Vec<Token>, pos: usize) -> (r: Option<(Package, usize)>)
    ensures
        match r {
            Some(xp) => pos < xp.1 <= toks@.len() && s_dec_package(toks@, pos as int) == Some(
                (package_model(xp.0), xp.1 as int),
            ),
            None => s_dec_package(toks@, pos as int) is None,
        },
{
    let (name, p1) = match decode_text(toks, pos) {
        Some(x) => x,
        None => {
            return None;
        },
    };
    let (versions, p2) = match decode_records(toks, p1) {
        Some(x) => x,
        None => {
            return None;
        },
    };
    Some((Package { name, versions }, p2))
}

/// Reads a package list.
fn decode_packages(toks: &Vec<Token>, pos: usize) -> (r: Option<(Vec<Package>, usize)>)
    requires
        pos <= toks@.len(),
    ensures
        match r {
            Some(xp) => pos < xp.1 <= toks@.len() && s_dec_packages(toks@, pos as int) == Some(
                (xp.0@.map_values(|p: Package| package_model(p)), xp.1 as int),
            ),
            None => s_dec_packages(toks@, pos as int) is None,
        },
    decreases toks@.len() - pos,
{
    if pos >= toks.len() {
        return None;
    }
    let at_end = match &toks[pos] {
        Token::End => true,
        _ => false,
    };
    if at_end {
        let empty: Vec<Package> = Vec::new();
        proof {
            assert(empty@.map_values(|p: Package| package_model(p)) =~= Seq::<
                PackageModel,
            >::empty());
        }
        return Some((empty, pos + 1));
    }
    match decode_package(toks, pos) {
        Some((p, p1)) => match decode_packages(toks, p1) {
            Some((rest, p2)) => {
                let mut items = rest;
                let ghost tail = items@;
                items.insert(0, p);
                proof {
                    assert(items@ =~= seq![p] + tail);
                    assert(items@.map_values(|x: Package| package_model(x)) =~= seq![
                        package_model(p),
                    ] + tail.map_values(|x: Package| package_model(x)));
                }
                Some((items, p2))
            },
            None => None,
        },
        None => None,
    }
}

/// Deserializes a token stream back into a package index.  A stream that is
/// not exactly one serialized index is refused.  On a stream that
/// `encode_index` produced, this returns the index it was made from, equal
/// field for field, by the round-trip law above.
pub fn decode_index(toks: &Vec<Token>) -> (r: Option<PackageIndex>)
    ensures
        match r {
            Some(idx) => s_dec_index(toks@, 0) == Some((index_model(idx), toks@.len() as int)),
            None => s_dec_index(toks@, 0) is None || (s_dec_index(toks@, 0) matches Some(m)
                && m.1 != toks@.len()),
        },
{
    match decode_packages(toks, 0) {
        Some((packages, p)) => {
            if p == toks.len() {
                Some(PackageIndex { packages })
            } else {
                None
            }
        },
        None => None,
    }
}

} // verus!
