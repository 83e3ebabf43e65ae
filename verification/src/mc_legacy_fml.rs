//! Libraries that Forge's loader (FML) for game versions 1.4 to 1.6
//! expects in the game directory.
use vstd::prelude::*;
use crate::text::{chars_of, is_prefix, push_str_chars, split_chars, split_any, str_eq, str_starts_with, string_of, views};

verus! {

/// Where the FML libraries are downloaded from.
pub const FMLLIBS_BASE: &'static str = "https://files.prismlauncher.org/fmllibs/";

/// The game version of a Forge profile id: what comes before its first `-`
/// (`1.5.2-Forge9.11.1.965` gives `1.5.2`).
pub open spec fn profile_game_version(version_id: Seq<char>) -> Seq<char> {
    split_any(version_id, seq!['-'])[0]
}

/// The FML libraries a game version needs, by file name; none for versions
/// outside 1.4 to 1.6.4.
pub open spec fn fmllibs_for(mc: Seq<char>) -> Seq<Seq<char>> {
    if is_prefix("1.4."@, mc) {
        seq!["bcprov-jdk15on-147.jar"@, "argo-2.25.jar"@, "guava-12.0.1.jar"@, "asm-all-4.0.jar"@]
    } else if mc == "1.5"@ {
        seq!["deobfuscation_data_1.5.zip"@, "bcprov-jdk15on-147.jar"@, "argo-small-3.2.jar"@, "guava-14.0-rc3.jar"@, "asm-all-4.1.jar"@]
    } else if mc == "1.5.1"@ {
        seq!["deobfuscation_data_1.5.1.zip"@, "bcprov-jdk15on-147.jar"@, "argo-small-3.2.jar"@, "guava-14.0-rc3.jar"@, "asm-all-4.1.jar"@]
    } else if mc == "1.5.2"@ {
        seq!["deobfuscation_data_1.5.2.zip"@, "bcprov-jdk15on-147.jar"@, "argo-small-3.2.jar"@, "guava-14.0-rc3.jar"@, "asm-all-4.1.jar"@]
    } else if mc == "1.6.1"@ {
        seq!["deobfuscation_data_1.6.1.zip"@, "bcprov-jdk15on-148.jar"@, "argo-small-3.2.jar"@, "guava-14.0-rc3.jar"@, "asm-all-4.1.jar"@, "lzma-0.0.1.jar"@]
    } else if mc == "1.6.2"@ {
        seq!["deobfuscation_data_1.6.2.zip"@, "bcprov-jdk15on-148.jar"@, "argo-small-3.2.jar"@, "guava-14.0-rc3.jar"@, "asm-all-4.1.jar"@, "lzma-0.0.1.jar"@]
    } else if mc == "1.6.3"@ {
        seq!["deobfuscation_data_1.6.3.zip"@, "bcprov-jdk15on-148.jar"@, "argo-small-3.2.jar"@, "guava-14.0-rc3.jar"@, "asm-all-4.1.jar"@, "lzma-0.0.1.jar"@]
    } else if mc == "1.6.4"@ {
        seq!["deobfuscation_data_1.6.4.zip"@, "bcprov-jdk15on-148.jar"@, "argo-small-3.2.jar"@, "guava-14.0-rc3.jar"@, "asm-all-4.1.jar"@, "lzma-0.0.1.jar"@]
    } else {
        Seq::empty()
    }
}

/// The views of a list of static strings.
pub open spec fn static_views(v: Seq<&'static str>) -> Seq<Seq<char>> {
    v.map_values(|s: &'static str| s@)
}

/// The file names of the FML libraries that the Forge profile `version_id`
/// needs (decided by the game version before its first `-`).
pub fn get_fmllib_filenames(version_id: &str) -> (r: Vec<&'static str>)
    ensures
        static_views(r@) == fmllibs_for(profile_game_version(version_id@)),
{
    let c = chars_of(version_id);
    let dash = ['-'];
    let parts = split_chars(c.as_slice(), dash.as_slice());
    proof {
        crate::text::lemma_split_any_len(version_id@, seq!['-']);
        assert(dash@ =~= seq!['-']);
        assert(views(parts@)[0] == parts@[0]@);
    }
    let mc = string_of(parts[0].as_slice());
    let m = mc.as_str();
    let mut out: Vec<&'static str> = Vec::new();
    if str_starts_with(m, "1.4.") {
        out.push("bcprov-jdk15on-147.jar");
        out.push("argo-2.25.jar");
        out.push("guava-12.0.1.jar");
        out.push("asm-all-4.0.jar");
    } else if str_eq(m, "1.5") {
        out.push("deobfuscation_data_1.5.zip");
        out.push("bcprov-jdk15on-147.jar");
        out.push("argo-small-3.2.jar");
        out.push("guava-14.0-rc3.jar");
        out.push("asm-all-4.1.jar");
    } else if str_eq(m, "1.5.1") {
        out.push("deobfuscation_data_1.5.1.zip");
        out.push("bcprov-jdk15on-147.jar");
        out.push("argo-small-3.2.jar");
        out.push("guava-14.0-rc3.jar");
        out.push("asm-all-4.1.jar");
    } else if str_eq(m, "1.5.2") {
        out.push("deobfuscation_data_1.5.2.zip");
        out.push("bcprov-jdk15on-147.jar");
        out.push("argo-small-3.2.jar");
        out.push("guava-14.0-rc3.jar");
        out.push("asm-all-4.1.jar");
    } else if str_eq(m, "1.6.1") {
        out.push("deobfuscation_data_1.6.1.zip");
        out.push("bcprov-jdk15on-148.jar");
        out.push("argo-small-3.2.jar");
        out.push("guava-14.0-rc3.jar");
        out.push("asm-all-4.1.jar");
        out.push("lzma-0.0.1.jar");
    } else if str_eq(m, "1.6.2") {
        out.push("deobfuscation_data_1.6.2.zip");
        out.push("bcprov-jdk15on-148.jar");
        out.push("argo-small-3.2.jar");
        out.push("guava-14.0-rc3.jar");
        out.push("asm-all-4.1.jar");
        out.push("lzma-0.0.1.jar");
    } else if str_eq(m, "1.6.3") {
        out.push("deobfuscation_data_1.6.3.zip");
        out.push("bcprov-jdk15on-148.jar");
        out.push("argo-small-3.2.jar");
        out.push("guava-14.0-rc3.jar");
        out.push("asm-all-4.1.jar");
        out.push("lzma-0.0.1.jar");
    } else if str_eq(m, "1.6.4") {
        out.push("deobfuscation_data_1.6.4.zip");
        out.push("bcprov-jdk15on-148.jar");
        out.push("argo-small-3.2.jar");
        out.push("guava-14.0-rc3.jar");
        out.push("asm-all-4.1.jar");
        out.push("lzma-0.0.1.jar");
    }
    proof {
        reveal_strlit("1.4.");
        reveal_strlit("1.5");
        reveal_strlit("1.5.1");
        reveal_strlit("1.5.2");
        reveal_strlit("1.6.1");
        reveal_strlit("1.6.2");
        reveal_strlit("1.6.3");
        reveal_strlit("1.6.4");
        reveal_strlit("argo-2.25.jar");
        reveal_strlit("argo-small-3.2.jar");
        reveal_strlit("asm-all-4.0.jar");
        reveal_strlit("asm-all-4.1.jar");
        reveal_strlit("bcprov-jdk15on-147.jar");
        reveal_strlit("bcprov-jdk15on-148.jar");
        reveal_strlit("deobfuscation_data_1.5.1.zip");
        reveal_strlit("deobfuscation_data_1.5.2.zip");
        reveal_strlit("deobfuscation_data_1.5.zip");
        reveal_strlit("deobfuscation_data_1.6.1.zip");
        reveal_strlit("deobfuscation_data_1.6.2.zip");
        reveal_strlit("deobfuscation_data_1.6.3.zip");
        reveal_strlit("deobfuscation_data_1.6.4.zip");
        reveal_strlit("guava-12.0.1.jar");
        reveal_strlit("guava-14.0-rc3.jar");
        reveal_strlit("lzma-0.0.1.jar");
    }
    assert(static_views(out@) =~= fmllibs_for(profile_game_version(version_id@)));
    out
}

/// Where an FML library is downloaded from.
pub fn fmllib_url(filename: &str) -> (r: String)
    ensures
        r@ == FMLLIBS_BASE@ + filename@,
{
    let mut v = chars_of(FMLLIBS_BASE);
    push_str_chars(&mut v, filename);
    string_of(v.as_slice())
}

/// The FML libraries of a Forge profile id are those of its game version:
/// the game version holds no `-`, so asking with it alone gives the same
/// game version and the same list.
pub proof fn lemma_fmllibs_by_game_version(version_id: Seq<char>)
    ensures
        !profile_game_version(version_id).contains('-'),
        profile_game_version(profile_game_version(version_id)) == profile_game_version(version_id),
        fmllibs_for(profile_game_version(profile_game_version(version_id))) == fmllibs_for(
            profile_game_version(version_id),
        ),
{
    crate::text::lemma_split_first_idempotent(version_id, seq!['-']);
    let mc = profile_game_version(version_id);
    if mc.contains('-') {
        let i = choose|i: int| 0 <= i < mc.len() && mc[i] == '-';
        assert(seq!['-'].contains(mc[i])) by {
            assert(seq!['-'][0] == '-');
        }
    }
}

/// Which game versions have FML libraries, and what the list holds: the
/// 1.4 versions share one list; for 1.5 to 1.6.4 the list opens with that
/// version's deobfuscation data.
pub proof fn lemma_fmllibs_shape(mc: Seq<char>)
    ensures
        (fmllibs_for(mc).len() == 0) <==> !(is_prefix("1.4."@, mc) || mc == "1.5"@ || mc == "1.5.1"@
            || mc == "1.5.2"@ || mc == "1.6.1"@ || mc == "1.6.2"@ || mc == "1.6.3"@ || mc == "1.6.4"@),
        is_prefix("1.4."@, mc) ==> fmllibs_for(mc) == seq![
            "bcprov-jdk15on-147.jar"@,
            "argo-2.25.jar"@,
            "guava-12.0.1.jar"@,
            "asm-all-4.0.jar"@,
        ],
        !is_prefix("1.4."@, mc) && fmllibs_for(mc).len() > 0 ==> fmllibs_for(mc)[0] == "deobfuscation_data_"@ + mc
            + ".zip"@,
{
    reveal_strlit("deobfuscation_data_");
    reveal_strlit(".zip");
    if !is_prefix("1.4."@, mc) {
        if mc == "1.5"@ {
            reveal_strlit("1.5");
            reveal_strlit("deobfuscation_data_1.5.zip");
            assert("deobfuscation_data_"@ + mc + ".zip"@ =~= "deobfuscation_data_1.5.zip"@);
        } else if mc == "1.5.1"@ {
            reveal_strlit("1.5.1");
            reveal_strlit("deobfuscation_data_1.5.1.zip");
            assert("deobfuscation_data_"@ + mc + ".zip"@ =~= "deobfuscation_data_1.5.1.zip"@);
        } else if mc == "1.5.2"@ {
            reveal_strlit("1.5.2");
            reveal_strlit("deobfuscation_data_1.5.2.zip");
            assert("deobfuscation_data_"@ + mc + ".zip"@ =~= "deobfuscation_data_1.5.2.zip"@);
        } else if mc == "1.6.1"@ {
            reveal_strlit("1.6.1");
            reveal_strlit("deobfuscation_data_1.6.1.zip");
            assert("deobfuscation_data_"@ + mc + ".zip"@ =~= "deobfuscation_data_1.6.1.zip"@);
        } else if mc == "1.6.2"@ {
            reveal_strlit("1.6.2");
            reveal_strlit("deobfuscation_data_1.6.2.zip");
            assert("deobfuscation_data_"@ + mc + ".zip"@ =~= "deobfuscation_data_1.6.2.zip"@);
        } else if mc == "1.6.3"@ {
            reveal_strlit("1.6.3");
            reveal_strlit("deobfuscation_data_1.6.3.zip");
            assert("deobfuscation_data_"@ + mc + ".zip"@ =~= "deobfuscation_data_1.6.3.zip"@);
        } else if mc == "1.6.4"@ {
            reveal_strlit("1.6.4");
            reveal_strlit("deobfuscation_data_1.6.4.zip");
            assert("deobfuscation_data_"@ + mc + ".zip"@ =~= "deobfuscation_data_1.6.4.zip"@);
        }
    }
}

} // verus!
