use vstd::prelude::*;

use crate::text::push_char;
use crate::text::{lemma_without_absent_char, lemma_without_char_concat, without_char};
use crate::version::{
    lemma_version_text_without_v,
    parse_tag_version, semver_parse, tag_version_text, version_text, InvalidVersion,
    SemanticVersion,
};

verus! {

/// The part of a project's `aiken.toml` that is read: the compiler version.
pub struct PartialConfig {
    pub compiler: SemanticVersion,
}

/// The compiler version of a configuration, from the text that stands for
/// it: every `v` is taken out and the rest is parsed.
pub fn deserialize_version(text: &str) -> (res: Result<SemanticVersion, InvalidVersion>)
    ensures
        match res {
            Ok(v) => semver_parse(tag_version_text(text@)) == Some(v@),
            Err(_) => semver_parse(tag_version_text(text@)) is None,
        },
{
    parse_tag_version(text)
}

impl PartialConfig {
    /// The configuration whose `compiler` field holds the given text.
    pub fn from_compiler(text: &str) -> (res: Result<PartialConfig, InvalidVersion>)
        ensures
            match res {
                Ok(c) => semver_parse(tag_version_text(text@)) == Some(c.compiler@),
                Err(_) => semver_parse(tag_version_text(text@)) is None,
            },
    {
        match deserialize_version(text) {
            Ok(compiler) => Ok(PartialConfig { compiler }),
            Err(e) => Err(e),
        }
    }

    /// The release tag of the configured compiler: `v` and the version's text.
    pub fn release_tag(&self) -> (res: String)
        ensures
            res@ == seq!['v'] + version_text(self.compiler@),
    {
        let mut tag = String::new();
        push_char(&mut tag, 'v');
        let text = self.compiler.to_text();
        tag.append(text.as_str());
        tag
    }
}

} // verus!

verus! {

/// The release tag detected from a configuration gives back the text of the
/// configured version once its `v`s are taken out, as is done to every tag
/// before it is parsed, where the version's pre-release and build texts hold
/// no `v`.
pub proof fn lemma_detected_tag_round_trip(config: PartialConfig)
    requires
        !config.compiler@.3.contains('v'),
        !config.compiler@.4.contains('v'),
    ensures
        tag_version_text(seq!['v'] + version_text(config.compiler@)) == version_text(
            config.compiler@,
        ),
{
    let t = version_text(config.compiler@);
    lemma_version_text_without_v(config.compiler@);
    lemma_without_char_concat(seq!['v'], t, 'v');
    lemma_without_absent_char(t, 'v');
    reveal_with_fuel(Seq::<_>::filter, 2);
    assert(seq!['v'].drop_last() =~= Seq::<char>::empty());
    assert(without_char(seq!['v'], 'v') =~= Seq::<char>::empty());
    assert(Seq::<char>::empty() + t =~= t);
}

} // verus!
