use vstd::prelude::*;
use crate::ci::{ci_of, detect_ci, CiType};
use crate::emit::{all_well_formed, artifact, emit, first_malformed, ShadowError};
use crate::registry::{id_set, insert_all, lemma_filter_exact, merged, ConstVal, Registry, RegistryMap};
use crate::text::{push_text, same_text};
use crate::trigger::{select, selects, BuildPattern, Trigger};
use crate::version::{resolve, version_kind};

verus! {

/// File name of the artifact inside the output directory.
pub const DEFINE_SHADOW_RS: &'static str = "shadow.rs";

/// Banner written before the caller's own section.
pub const HOOK_BANNER: &'static str = "\n// Below code generated by project custom from by build.rs\n\n";

/// The artifact's path for an output directory: the file name joined onto the directory, or
/// the file name alone for an empty directory.
pub open spec fn output_file_of(dir: Seq<char>) -> Seq<char> {
    if dir.len() == 0 || dir.last() == '/' {
        dir + DEFINE_SHADOW_RS@
    } else {
        dir + seq!['/'] + DEFINE_SHADOW_RS@
    }
}

/// The registry of a run: version-control facts, then project facts, then system facts, each
/// overwriting earlier values of the same identifier, with the denied identifiers removed.
pub open spec fn run_registry(
    git: Seq<(String, ConstVal)>,
    project: Seq<(String, ConstVal)>,
    system: Seq<(String, ConstVal)>,
    deny: Seq<String>,
) -> RegistryMap {
    insert_all(insert_all(merged(git), project), system).remove_keys(id_set(deny))
}

/// One generation run: the collected constants and the settings that shape the artifact.
pub struct Shadow {
    /// The constants to write, after the deny list was applied.
    pub map: Registry,
    /// The process environment, as name and value pairs.
    pub std_env: Vec<(String, String)>,
    /// Identifiers kept out of the artifact and of the re-run directives.
    pub deny_const: Vec<String>,
    /// The directory the artifact is written to.
    pub out_path: String,
    /// When the host should run generation again.
    pub build_pattern: BuildPattern,
}

impl Shadow {
    pub open spec fn wf(&self) -> bool {
        self.map.wf()
    }

    /// Merges the collected facts in precedence order and applies the deny list.
    pub fn build(
        std_env: Vec<(String, String)>,
        git: Vec<(String, ConstVal)>,
        project: Vec<(String, ConstVal)>,
        system: Vec<(String, ConstVal)>,
        deny_const: Vec<String>,
        out_path: String,
        build_pattern: BuildPattern,
    ) -> (r: Shadow)
        ensures
            r.wf(),
            r.map@ == run_registry(git@, project@, system@, deny_const@),
            r.std_env == std_env,
            r.deny_const == deny_const,
            r.out_path == out_path,
            r.build_pattern == build_pattern,
    {
        let mut map = Registry::from_pairs(git);
        map.merge(project);
        map.merge(system);
        let mut shadow = Shadow { map, std_env, deny_const, out_path, build_pattern };
        shadow.filter_deny();
        shadow
    }

    /// Removes the denied identifiers from the registry.
    fn filter_deny(&mut self)
        requires
            old(self).wf(),
        ensures
            final(self).wf(),
            final(self).map@ == old(self).map@.remove_keys(id_set(old(self).deny_const@)),
            final(self).std_env == old(self).std_env,
            final(self).deny_const == old(self).deny_const,
            final(self).out_path == old(self).out_path,
            final(self).build_pattern == old(self).build_pattern,
    {
        self.map.filter_deny(&self.deny_const);
    }

    /// The CI system named by the environment snapshot.
    pub fn try_ci(&self) -> (r: CiType)
        ensures
            r == ci_of(self.std_env@),
    {
        detect_ci(&self.std_env)
    }

    /// Whether `deny_const` is on the deny list.
    pub fn deny_contains(&self, deny_const: &str) -> (r: bool)
        ensures
            r == id_set(self.deny_const@).contains(deny_const@),
    {
        let mut i: usize = 0;
        while i < self.deny_const.len()
            invariant
                i <= self.deny_const@.len(),
                forall|j: int| 0 <= j < i ==> self.deny_const@[j]@ != deny_const@,
            decreases self.deny_const@.len() - i,
        {
            if same_text(self.deny_const[i].as_str(), deny_const) {
                assert(self.deny_const@[i as int]@ == deny_const@);
                return true;
            }
            i = i + 1;
        }
        false
    }

    /// The artifact's path.
    pub fn output_file(&self) -> (r: String)
        ensures
            r@ == output_file_of(self.out_path@),
    {
        let mut out = self.out_path.clone();
        let n = out.as_str().unicode_len();
        if n == 0 || out.as_str().get_char(n - 1) == '/' {
            push_text(&mut out, DEFINE_SHADOW_RS);
        } else {
            out.push('/');
            push_text(&mut out, DEFINE_SHADOW_RS);
        }
        out
    }

    /// The re-run directives for the host build system.
    pub fn triggers(&self) -> (r: Vec<Trigger>)
        requires
            self.wf(),
        ensures
            selects(self.build_pattern, self.map.key_seq(), output_file_of(self.out_path@), r@),
    {
        let file = self.output_file();
        select(&self.build_pattern, &self.map, &file)
    }

    /// The artifact, with `ts` as its generation time. Fails exactly when a boolean constant
    /// does not parse.
    pub fn render(&self, ts: &str) -> (r: Result<String, ShadowError>)
        requires
            self.wf(),
        ensures
            r is Ok <==> all_well_formed(self.map.key_seq(), self.map@),
            r matches Ok(s) ==> s@ == artifact(
                self.map.key_seq(),
                self.map@,
                version_kind(self.map@),
                ts@,
            ),
            r matches Err(ShadowError::MalformedConstant(e)) ==> first_malformed(
                self.map.key_seq(),
                self.map@,
                e@,
            ),
    {
        let kind = resolve(&self.map);
        emit(&self.map, kind, ts)
    }

    /// Appends the caller's own section, after its banner, to a written artifact.
    ///
    /// `custom` is what the caller's hook produced. Its error is handed back unchanged, with
    /// only the banner written; its text is appended after the banner.
    pub fn hook(&self, out: &mut String, custom: Result<String, ShadowError>) -> (r: Result<(), ShadowError>)
        ensures
            match custom {
                Ok(text) => r is Ok && final(out)@ == old(out)@ + HOOK_BANNER@ + text@,
                Err(e) => r == Err::<(), ShadowError>(e) && final(out)@ == old(out)@ + HOOK_BANNER@,
            },
    {
        push_text(out, HOOK_BANNER);
        match custom {
            Ok(text) => {
                push_text(out, text.as_str());
                Ok(())
            },
            Err(e) => Err(e),
        }
    }
}

/// The registry of a run holds no denied identifier, and holds every merged identifier that is
/// not denied, with its merged value.
pub proof fn lemma_run_registry_deny(
    git: Seq<(String, ConstVal)>,
    project: Seq<(String, ConstVal)>,
    system: Seq<(String, ConstVal)>,
    deny: Seq<String>,
)
    ensures
        forall|k: Seq<char>|
            id_set(deny).contains(k) ==> !(#[trigger] run_registry(git, project, system, deny).contains_key(k)),
        forall|k: Seq<char>|
            insert_all(insert_all(merged(git), project), system).contains_key(k) && !id_set(deny).contains(k)
                ==> (#[trigger] run_registry(git, project, system, deny).contains_key(k))
                && run_registry(git, project, system, deny)[k] == insert_all(
                insert_all(merged(git), project),
                system,
            )[k],
{
    lemma_filter_exact(insert_all(insert_all(merged(git), project), system), id_set(deny));
}

} // verus!
