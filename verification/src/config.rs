//! Configuration: the directives collected from the caller, validated and
//! assembled into the `Config` that drives traversal.
//!
//! The surface syntax of the configuration is read by an outside
//! collaborator, which hands the library an ordered sequence of directives.
//! Exactly one source and exactly one module path of each kind may be given;
//! the module paths must be absolute (their first segment is `crate`); each
//! record or union marker lands in the specification tree, which rejects a
//! second marker at the same fully-qualified path.

use vstd::prelude::*;

use crate::schema::SchemaItem;
use crate::schema::SchemaItemV;
use crate::schema::schema_items_view;
use crate::spec_tree::DuplicateSpecError;
use crate::spec_tree::SpecTree;
use crate::spec_tree::SpecTreeLeaf;
use crate::spec_tree::SpecTreeLeafV;
use crate::spec_tree::SpecTreeNodeV;
use crate::spec_tree::StructSpecV;
use crate::spec_tree::EnumSpecV;
use crate::spec_tree::get_spec;
use crate::spec_tree::push_spec;

verus! {

/// One loaded schema source: the qualified name it was registered under and
/// the items of its parsed text.
#[derive(Debug, PartialEq)]
pub struct SourceFile {
    pub fqn: Vec<String>,
    pub items: Vec<SchemaItem>,
}

pub ghost struct SourceFileV {
    pub fqn: Seq<Seq<char>>,
    pub items: Seq<SchemaItemV>,
}

impl View for SourceFile {
    type V = SourceFileV;

    open spec fn view(&self) -> SourceFileV {
        SourceFileV { fqn: self.fqn.deep_view(), items: schema_items_view(self.items@) }
    }
}

/// One configuration directive, as the surface-syntax reader hands them in.
#[derive(Debug, PartialEq)]
pub enum Directive {
    FromSource(SourceFile),
    WithThisMod(Vec<String>),
    WithOriginalMod(Vec<String>),
    WithSuffix(String),
    WithStruct(Vec<String>, Vec<String>),
    WithEnum(Vec<String>),
}

pub ghost enum DirectiveV {
    FromSource(SourceFileV),
    WithThisMod(Seq<Seq<char>>),
    WithOriginalMod(Seq<Seq<char>>),
    WithSuffix(Seq<char>),
    WithStruct(Seq<Seq<char>>, Seq<Seq<char>>),
    WithEnum(Seq<Seq<char>>),
}

impl View for Directive {
    type V = DirectiveV;

    open spec fn view(&self) -> DirectiveV {
        match self {
            Directive::FromSource(s) => DirectiveV::FromSource(s@),
            Directive::WithThisMod(p) => DirectiveV::WithThisMod(p.deep_view()),
            Directive::WithOriginalMod(p) => DirectiveV::WithOriginalMod(p.deep_view()),
            Directive::WithSuffix(s) => DirectiveV::WithSuffix(s@),
            Directive::WithStruct(p, fs) => DirectiveV::WithStruct(p.deep_view(), fs.deep_view()),
            Directive::WithEnum(p) => DirectiveV::WithEnum(p.deep_view()),
        }
    }
}

impl DeepView for Directive {
    type V = DirectiveV;

    open spec fn deep_view(&self) -> DirectiveV {
        self.view()
    }
}

/// The configuration parameters a directive may set.
#[derive(Clone, Copy, Debug, PartialEq, Eq, Structural)]
pub enum ParamKind {
    Source,
    ThisMod,
    OrigMod,
    Suffix,
}

/// A configuration error: the directives are inconsistent or incomplete.
#[derive(Debug, PartialEq)]
pub enum ConfigError {
    /// A parameter that may be given only once was given again.
    MultipleParameter(ParamKind),
    /// A mandatory parameter was never given.
    MissingParameter(ParamKind),
    /// A module path that should be absolute does not start with `crate`.
    NotAbsoluteModPath(Vec<String>),
    /// A marker names an empty qualified path.
    EmptySpecPath,
    /// A second marker targets an already-occupied qualified path.
    Duplicate(DuplicateSpecError),
}

pub ghost enum ConfigErrorV {
    MultipleParameter(ParamKind),
    MissingParameter(ParamKind),
    NotAbsoluteModPath(Seq<Seq<char>>),
    EmptySpecPath,
    Duplicate(Seq<Seq<char>>),
}

impl View for ConfigError {
    type V = ConfigErrorV;

    open spec fn view(&self) -> ConfigErrorV {
        match self {
            ConfigError::MultipleParameter(p) => ConfigErrorV::MultipleParameter(*p),
            ConfigError::MissingParameter(p) => ConfigErrorV::MissingParameter(*p),
            ConfigError::NotAbsoluteModPath(p) => ConfigErrorV::NotAbsoluteModPath(p.deep_view()),
            ConfigError::EmptySpecPath => ConfigErrorV::EmptySpecPath,
            ConfigError::Duplicate(d) => ConfigErrorV::Duplicate(d.fqn.deep_view()),
        }
    }
}

/// The validated configuration that drives a synthesis run.
#[derive(Debug, PartialEq)]
pub struct Config {
    pub this_mod_path: Vec<String>,
    pub orig_mod_path: Vec<String>,
    pub items_suffix: Option<String>,
    pub source: SourceFile,
    pub spec_tree: SpecTree,
}

pub ghost struct ConfigV {
    pub this_mod_path: Seq<Seq<char>>,
    pub orig_mod_path: Seq<Seq<char>>,
    pub items_suffix: Option<Seq<char>>,
    pub source: SourceFileV,
    pub spec_tree: SpecTreeNodeV,
}

impl View for Config {
    type V = ConfigV;

    open spec fn view(&self) -> ConfigV {
        ConfigV {
            this_mod_path: self.this_mod_path.deep_view(),
            orig_mod_path: self.orig_mod_path.deep_view(),
            items_suffix: match self.items_suffix {
                Option::None => None,
                Option::Some(s) => Some(s@),
            },
            source: self.source@,
            spec_tree: self.spec_tree@,
        }
    }
}

/// The partially assembled configuration while directives are applied.
pub struct ConfigBuilder {
    pub this_mod_path: Option<Vec<String>>,
    pub orig_mod_path: Option<Vec<String>>,
    pub items_suffix: Option<String>,
    pub source: Option<SourceFile>,
    pub spec_tree: SpecTree,
}

pub ghost struct ConfigBuilderV {
    pub this_mod_path: Option<Seq<Seq<char>>>,
    pub orig_mod_path: Option<Seq<Seq<char>>>,
    pub items_suffix: Option<Seq<char>>,
    pub source: Option<SourceFileV>,
    pub spec_tree: SpecTreeNodeV,
}

impl View for ConfigBuilder {
    type V = ConfigBuilderV;

    open spec fn view(&self) -> ConfigBuilderV {
        ConfigBuilderV {
            this_mod_path: match &self.this_mod_path {
                Option::None => None,
                Option::Some(p) => Some(p.deep_view()),
            },
            orig_mod_path: match &self.orig_mod_path {
                Option::None => None,
                Option::Some(p) => Some(p.deep_view()),
            },
            items_suffix: match &self.items_suffix {
                Option::None => None,
                Option::Some(s) => Some(s@),
            },
            source: match &self.source {
                Option::None => None,
                Option::Some(s) => Some(s@),
            },
            spec_tree: self.spec_tree@,
        }
    }
}

// ---------------------------------------------------------------------------
// What applying the directives means
// ---------------------------------------------------------------------------

/// The builder before any directive has been applied.
pub open spec fn spec_empty_builder() -> ConfigBuilderV {
    ConfigBuilderV {
        this_mod_path: None,
        orig_mod_path: None,
        items_suffix: None,
        source: None,
        spec_tree: SpecTreeNodeV {
            fqn: Seq::empty(),
            nodes: Seq::empty(),
            leafs: Seq::empty(),
        },
    }
}

/// Whether a module path is absolute: its first segment is `crate`.
pub open spec fn is_absolute_path(p: Seq<Seq<char>>) -> bool {
    p.len() > 0 && p[0] == "crate"@
}

/// The effect of one directive on the builder, or the error it raises.
pub open spec fn spec_apply_directive(b: ConfigBuilderV, d: DirectiveV) -> Result<
    ConfigBuilderV,
    ConfigErrorV,
> {
    match d {
        DirectiveV::FromSource(src) => {
            if b.source is Some {
                Err(ConfigErrorV::MultipleParameter(ParamKind::Source))
            } else {
                Ok(ConfigBuilderV { source: Some(src), ..b })
            }
        },
        DirectiveV::WithThisMod(p) => {
            if b.this_mod_path is Some {
                Err(ConfigErrorV::MultipleParameter(ParamKind::ThisMod))
            } else if !is_absolute_path(p) {
                Err(ConfigErrorV::NotAbsoluteModPath(p))
            } else {
                Ok(ConfigBuilderV { this_mod_path: Some(p), ..b })
            }
        },
        DirectiveV::WithOriginalMod(p) => {
            if b.orig_mod_path is Some {
                Err(ConfigErrorV::MultipleParameter(ParamKind::OrigMod))
            } else if !is_absolute_path(p) {
                Err(ConfigErrorV::NotAbsoluteModPath(p))
            } else {
                Ok(ConfigBuilderV { orig_mod_path: Some(p), ..b })
            }
        },
        DirectiveV::WithSuffix(s) => {
            if b.items_suffix is Some {
                Err(ConfigErrorV::MultipleParameter(ParamKind::Suffix))
            } else {
                Ok(ConfigBuilderV { items_suffix: Some(s), ..b })
            }
        },
        DirectiveV::WithStruct(fqn, fields) => {
            if fqn.len() == 0 {
                Err(ConfigErrorV::EmptySpecPath)
            } else if get_spec(b.spec_tree, fqn) is Some {
                Err(ConfigErrorV::Duplicate(fqn))
            } else {
                Ok(
                    ConfigBuilderV {
                        spec_tree: push_spec(
                            b.spec_tree,
                            fqn,
                            SpecTreeLeafV::Struct(StructSpecV { fqn, fields }),
                        ),
                        ..b
                    },
                )
            }
        },
        DirectiveV::WithEnum(fqn) => {
            if fqn.len() == 0 {
                Err(ConfigErrorV::EmptySpecPath)
            } else if get_spec(b.spec_tree, fqn) is Some {
                Err(ConfigErrorV::Duplicate(fqn))
            } else {
                Ok(
                    ConfigBuilderV {
                        spec_tree: push_spec(
                            b.spec_tree,
                            fqn,
                            SpecTreeLeafV::Enum(EnumSpecV { fqn }),
                        ),
                        ..b
                    },
                )
            }
        },
    }
}

/// The effect of a sequence of directives, first error wins.
pub open spec fn spec_apply_directives(b: ConfigBuilderV, ds: Seq<DirectiveV>) -> Result<
    ConfigBuilderV,
    ConfigErrorV,
>
    decreases ds.len(),
{
    if ds.len() == 0 {
        Ok(b)
    } else {
        match spec_apply_directive(b, ds[0]) {
            Err(e) => Err(e),
            Ok(b2) => spec_apply_directives(b2, ds.drop_first()),
        }
    }
}

/// The finished configuration, once every mandatory parameter is present.
pub open spec fn spec_finish_builder(b: ConfigBuilderV) -> Result<ConfigV, ConfigErrorV> {
    if b.this_mod_path is None {
        Err(ConfigErrorV::MissingParameter(ParamKind::ThisMod))
    } else if b.orig_mod_path is None {
        Err(ConfigErrorV::MissingParameter(ParamKind::OrigMod))
    } else if b.source is None {
        Err(ConfigErrorV::MissingParameter(ParamKind::Source))
    } else {
        Ok(
            ConfigV {
                this_mod_path: b.this_mod_path->Some_0,
                orig_mod_path: b.orig_mod_path->Some_0,
                items_suffix: b.items_suffix,
                source: b.source->Some_0,
                spec_tree: b.spec_tree,
            },
        )
    }
}

/// What `Config::parse` returns for a given directive sequence.
pub open spec fn spec_config_parse(ds: Seq<DirectiveV>) -> Result<ConfigV, ConfigErrorV> {
    match spec_apply_directives(spec_empty_builder(), ds) {
        Err(e) => Err(e),
        Ok(b) => spec_finish_builder(b),
    }
}

// ---------------------------------------------------------------------------
// Applying the directives
// ---------------------------------------------------------------------------

impl Config {
    /// Registers the schema source; a second source is rejected.
    pub fn parse_source(builder: &mut ConfigBuilder, src: SourceFile) -> (r: Result<
        (),
        ConfigError,
    >)
        ensures
            match r {
                Ok(_) => spec_apply_directive(old(builder)@, DirectiveV::FromSource(src@)) == Ok::<
                    ConfigBuilderV,
                    ConfigErrorV,
                >(final(builder)@),
                Err(e) => spec_apply_directive(old(builder)@, DirectiveV::FromSource(src@))
                    == Err::<ConfigBuilderV, ConfigErrorV>(e@) && final(builder)@ == old(builder)@,
            },
    {
        if builder.source.is_some() {
            return Err(ConfigError::MultipleParameter(ParamKind::Source));
        }
        builder.source = Some(src);
        Ok(())
    }

    /// Sets the module path the mirror lives under; it must be absolute and
    /// may be set only once.
    pub fn parse_this_mod_path(builder: &mut ConfigBuilder, path: Vec<String>) -> (r: Result<
        (),
        ConfigError,
    >)
        ensures
            match r {
                Ok(_) => spec_apply_directive(
                    old(builder)@,
                    DirectiveV::WithThisMod(path.deep_view()),
                ) == Ok::<ConfigBuilderV, ConfigErrorV>(final(builder)@),
                Err(e) => spec_apply_directive(
                    old(builder)@,
                    DirectiveV::WithThisMod(path.deep_view()),
                ) == Err::<ConfigBuilderV, ConfigErrorV>(e@) && final(builder)@ == old(builder)@,
            },
    {
        if builder.this_mod_path.is_some() {
            return Err(ConfigError::MultipleParameter(ParamKind::ThisMod));
        }
        if path.len() == 0 || !crate::paths::string_eq_lit(&path[0], "crate") {
            proof {
                if path@.len() > 0 {
                    assert(path.deep_view()[0] == path@[0]@);
                }
            }
            return Err(ConfigError::NotAbsoluteModPath(path));
        }
        proof {
            assert(path.deep_view()[0] == path@[0]@);
        }
        builder.this_mod_path = Some(path);
        Ok(())
    }

    /// Sets the module path of the original schema types; it must be
    /// absolute and may be set only once.
    pub fn parse_orig_mod_path(builder: &mut ConfigBuilder, path: Vec<String>) -> (r: Result<
        (),
        ConfigError,
    >)
        ensures
            match r {
                Ok(_) => spec_apply_directive(
                    old(builder)@,
                    DirectiveV::WithOriginalMod(path.deep_view()),
                ) == Ok::<ConfigBuilderV, ConfigErrorV>(final(builder)@),
                Err(e) => spec_apply_directive(
                    old(builder)@,
                    DirectiveV::WithOriginalMod(path.deep_view()),
                ) == Err::<ConfigBuilderV, ConfigErrorV>(e@) && final(builder)@ == old(builder)@,
            },
    {
        if builder.orig_mod_path.is_some() {
            return Err(ConfigError::MultipleParameter(ParamKind::OrigMod));
        }
        if path.len() == 0 || !crate::paths::string_eq_lit(&path[0], "crate") {
            proof {
                if path@.len() > 0 {
                    assert(path.deep_view()[0] == path@[0]@);
                }
            }
            return Err(ConfigError::NotAbsoluteModPath(path));
        }
        proof {
            assert(path.deep_view()[0] == path@[0]@);
        }
        builder.orig_mod_path = Some(path);
        Ok(())
    }

    /// Sets the suffix appended to mirrored item names; only once.
    pub fn parse_items_suffix(builder: &mut ConfigBuilder, suffix: String) -> (r: Result<
        (),
        ConfigError,
    >)
        ensures
            match r {
                Ok(_) => spec_apply_directive(old(builder)@, DirectiveV::WithSuffix(suffix@))
                    == Ok::<ConfigBuilderV, ConfigErrorV>(final(builder)@),
                Err(e) => spec_apply_directive(old(builder)@, DirectiveV::WithSuffix(suffix@))
                    == Err::<ConfigBuilderV, ConfigErrorV>(e@) && final(builder)@ == old(builder)@,
            },
    {
        if builder.items_suffix.is_some() {
            return Err(ConfigError::MultipleParameter(ParamKind::Suffix));
        }
        builder.items_suffix = Some(suffix);
        Ok(())
    }

    /// Stores a record marker in the specification tree.
    pub fn parse_struct_spec(
        builder: &mut ConfigBuilder,
        fqn: Vec<String>,
        fields: Vec<String>,
    ) -> (r: Result<(), ConfigError>)
        ensures
            match r {
                Ok(_) => spec_apply_directive(
                    old(builder)@,
                    DirectiveV::WithStruct(fqn.deep_view(), fields.deep_view()),
                ) == Ok::<ConfigBuilderV, ConfigErrorV>(final(builder)@),
                Err(e) => spec_apply_directive(
                    old(builder)@,
                    DirectiveV::WithStruct(fqn.deep_view(), fields.deep_view()),
                ) == Err::<ConfigBuilderV, ConfigErrorV>(e@) && final(builder)@ == old(builder)@,
            },
    {
        if fqn.len() == 0 {
            return Err(ConfigError::EmptySpecPath);
        }
        let leaf = SpecTreeLeaf::new_struct_spec(fqn, fields);
        match builder.spec_tree.push(leaf) {
            Ok(_) => Ok(()),
            Err(d) => Err(ConfigError::Duplicate(d)),
        }
    }

    /// Stores a union marker in the specification tree.
    pub fn parse_enum_spec(builder: &mut ConfigBuilder, fqn: Vec<String>) -> (r: Result<
        (),
        ConfigError,
    >)
        ensures
            match r {
                Ok(_) => spec_apply_directive(
                    old(builder)@,
                    DirectiveV::WithEnum(fqn.deep_view()),
                ) == Ok::<ConfigBuilderV, ConfigErrorV>(final(builder)@),
                Err(e) => spec_apply_directive(old(builder)@, DirectiveV::WithEnum(fqn.deep_view()))
                    == Err::<ConfigBuilderV, ConfigErrorV>(e@) && final(builder)@ == old(builder)@,
            },
    {
        if fqn.len() == 0 {
            return Err(ConfigError::EmptySpecPath);
        }
        let leaf = SpecTreeLeaf::new_enum_spec(fqn);
        match builder.spec_tree.push(leaf) {
            Ok(_) => Ok(()),
            Err(d) => Err(ConfigError::Duplicate(d)),
        }
    }

    /// Applies one directive to the builder.
    pub fn build_arguments(builder: &mut ConfigBuilder, directive: Directive) -> (r: Result<
        (),
        ConfigError,
    >)
        ensures
            match r {
                Ok(_) => spec_apply_directive(old(builder)@, directive@) == Ok::<
                    ConfigBuilderV,
                    ConfigErrorV,
                >(final(builder)@),
                Err(e) => spec_apply_directive(old(builder)@, directive@) == Err::<
                    ConfigBuilderV,
                    ConfigErrorV,
                >(e@) && final(builder)@ == old(builder)@,
            },
    {
        match directive {
            Directive::FromSource(src) => Config::parse_source(builder, src),
            Directive::WithThisMod(p) => Config::parse_this_mod_path(builder, p),
            Directive::WithOriginalMod(p) => Config::parse_orig_mod_path(builder, p),
            Directive::WithSuffix(s) => Config::parse_items_suffix(builder, s),
            Directive::WithStruct(fqn, fields) => Config::parse_struct_spec(builder, fqn, fields),
            Directive::WithEnum(fqn) => Config::parse_enum_spec(builder, fqn),
        }
    }

    /// Validates and assembles the whole configuration from its directives:
    /// the first inconsistent directive decides the error; a configuration
    /// without a mirror module path, an original module path and a source is
    /// incomplete.
    pub fn parse(directives: Vec<Directive>) -> (r: Result<Config, ConfigError>)
        ensures
            match r {
                Ok(c) => spec_config_parse(directives.deep_view()) == Ok::<ConfigV, ConfigErrorV>(
                    c@,
                ),
                Err(e) => spec_config_parse(directives.deep_view()) == Err::<
                    ConfigV,
                    ConfigErrorV,
                >(e@),
            },
    {
        let ghost all = directives.deep_view();
        let mut builder = ConfigBuilder {
            this_mod_path: None,
            orig_mod_path: None,
            items_suffix: None,
            source: None,
            spec_tree: SpecTree::new(),
        };
        proof {
            assert(builder@ == spec_empty_builder());
        }
        let mut rest = directives;
        #[verifier::loop_isolation(false)]
        while rest.len() > 0
            invariant
                spec_apply_directives(spec_empty_builder(), all) == spec_apply_directives(
                    builder@,
                    rest.deep_view(),
                ),
            decreases rest.len(),
        {
            let ghost pre = rest.deep_view();
            let d = rest.remove(0);
            proof {
                assert(rest.deep_view() =~= pre.drop_first());
                assert(pre[0] == d@);
            }
            match Config::build_arguments(&mut builder, d) {
                Ok(_) => {
                }
                Err(e) => {
                    return Err(e);
                }
            }
        }
        proof {
            assert(rest.deep_view() =~= Seq::<DirectiveV>::empty());
            assert(spec_apply_directives(spec_empty_builder(), all) == Ok::<
                ConfigBuilderV,
                ConfigErrorV,
            >(builder@));
        }
        let this_mod_path = match builder.this_mod_path {
            Option::Some(p) => p,
            Option::None => {
                return Err(ConfigError::MissingParameter(ParamKind::ThisMod));
            },
        };
        let orig_mod_path = match builder.orig_mod_path {
            Option::Some(p) => p,
            Option::None => {
                return Err(ConfigError::MissingParameter(ParamKind::OrigMod));
            },
        };
        let source = match builder.source {
            Option::Some(s) => s,
            Option::None => {
                return Err(ConfigError::MissingParameter(ParamKind::Source));
            },
        };
        Ok(
            Config {
                this_mod_path,
                orig_mod_path,
                items_suffix: builder.items_suffix,
                source,
                spec_tree: builder.spec_tree,
            },
        )
    }

    /// The fully-qualified name of a mirrored item of the original schema:
    /// the original module path followed by the item's path.
    pub fn orig_item_typepath(&self, ident_path: &Vec<String>) -> (r: Vec<String>)
        ensures
            r.deep_view() == self.orig_mod_path.deep_view() + ident_path.deep_view(),
    {
        let base = crate::paths::clone_string_vec(&self.orig_mod_path);
        self.item_typepath(base, ident_path)
    }

    /// The fully-qualified name of an item in the mirror module: the mirror
    /// module path followed by the item's path.
    pub fn this_item_typepath(&self, ident_path: &Vec<String>) -> (r: Vec<String>)
        ensures
            r.deep_view() == self.this_mod_path.deep_view() + ident_path.deep_view(),
    {
        let base = crate::paths::clone_string_vec(&self.this_mod_path);
        self.item_typepath(base, ident_path)
    }

    /// The fully-qualified name of the emitted error type.
    pub fn error_typepath(&self) -> (r: Vec<String>)
        ensures
            r.deep_view() == self.this_mod_path.deep_view() + seq!["Error"@],
    {
        let mut suffix: Vec<String> = Vec::new();
        suffix.push(String::from_str("Error"));
        proof {
            assert(suffix.deep_view() =~= seq!["Error"@]);
        }
        let base = crate::paths::clone_string_vec(&self.this_mod_path);
        self.item_typepath(base, &suffix)
    }

    /// Appends an item path to a module path.
    fn item_typepath(&self, mod_path: Vec<String>, ident_path: &Vec<String>) -> (r: Vec<String>)
        ensures
            r.deep_view() == mod_path.deep_view() + ident_path.deep_view(),
    {
        let mut r = mod_path;
        let ghost base = r.deep_view();
        let mut i: usize = 0;
        #[verifier::loop_isolation(false)]
        while i < ident_path.len()
            invariant
                i <= ident_path.len(),
                r.deep_view() =~= base + ident_path.deep_view().subrange(0, i as int),
            decreases ident_path.len() - i,
        {
            let ghost prev = r.deep_view();
            let s = ident_path[i].clone();
            r.push(s);
            proof {
                let target = base + ident_path.deep_view().subrange(0, i + 1);
                assert forall|k: int| 0 <= k < prev.len() implies r.deep_view()[k] == prev[k] by {}
                assert(r.deep_view()[prev.len() as int] == ident_path.deep_view()[i as int]);
                assert(prev.len() == base.len() + i);
                assert(r.deep_view().len() == target.len());
                assert forall|k: int|
                    0 <= k < r.deep_view().len() implies r.deep_view()[k] == target[k] by {
                    if k < prev.len() {
                        assert(prev[k] == (base + ident_path.deep_view().subrange(0, i as int))[k]);
                        if k >= base.len() {
                            assert((base + ident_path.deep_view().subrange(0, i as int))[k]
                                == ident_path.deep_view()[k - base.len()]);
                            assert(target[k] == ident_path.deep_view()[k - base.len()]);
                        }
                    } else {
                        assert(target[k] == ident_path.deep_view()[i as int]);
                    }
                }
                assert(r.deep_view() =~= target);
            }
            i = i + 1;
        }
        proof {
            assert(ident_path.deep_view().subrange(0, ident_path.len() as int) =~= ident_path.deep_view());
        }
        r
    }
}

} // verus!
