//! The project model builder: the pipeline entry point.
//!
//! A build alternates filesystem work with decisions.  All decisions live
//! here, in a verified step machine: `ProjectBuilder::new` names the first
//! file to read (the manifest, before any item file is ever touched), and
//! `advance` consumes the raw outcome of each filesystem action and says
//! what to do next.  The runner outside the library performs the reads and
//! listings and feeds their outcomes back in.  The build fails fast: the
//! first classified error finishes it, and no partial project is ever
//! produced.

use vstd::prelude::*;
use vstd::string::*;
use vstd::relations::sorted_by;

use crate::config_json_obj::{
    ConfigJsonObj,
    config_blame,
    config_blame_field,
    is_valid_config,
    spec_config_of,
    validate_config,
};
use crate::item_json_obj::{
    ItemJsonObj,
    ItemV,
    is_valid_item,
    item_blame,
    item_blame_field,
    spec_item_of,
    validate_item,
};
use crate::json_read::{json_parse, parse_json_text};
use crate::locate::{blame_location, spec_blame_location};
use crate::errors::{BuildError, IO, Configuration};
use crate::paths::{PathManager, DirOutcome, get_paths_from_dir, views_of, str_leq};

verus! {

/// Path of the manifest file, relative to the project directory.
pub const PROJECT_CONFIG_PATH: &'static str = "adml.json";

/// Path of the item definitions directory, relative to the project
/// directory.
pub const ITEM_DIR_PATH: &'static str = "item/";

/// The in-memory representation of a validated source project.  A value of
/// this type exists only if every required sub-parse succeeded.
#[derive(Debug)]
pub struct Project {
    pub config_json_obj: ConfigJsonObj,
    /// The item records, in the sorted order of their files.
    pub items: Vec<ItemJsonObj>,
}

/// The mathematical contents of a sequence of item records.
pub open spec fn items_views(s: Seq<ItemJsonObj>) -> Seq<ItemV> {
    s.map_values(|it: ItemJsonObj| it@)
}

impl Project {
    /// Reads the manifest record out of the raw outcome of reading its file.
    /// An OS failure becomes an `IO` error carrying the path; a syntax
    /// failure a `Configuration` error carrying the parser's line and
    /// column; a schema violation a `Configuration` error carrying the
    /// blamed token's line and column, found by the verified location scan;
    /// a valid document yields exactly the record it denotes.
    pub fn parse_project_config(path: &str, file: Result<String, String>) -> (r: Result<
        ConfigJsonObj,
        BuildError,
    >)
        ensures
            file matches Err(m) ==> r matches Err(BuildError::IO(e)) && e.path@ == path@ && e.msg@
                == m@,
            file matches Ok(text) ==> match json_parse(text@) {
                Result::Err(se) => r matches Err(BuildError::Configuration(c)) && c.path@ == path@
                    && c.msg@ == se.msg@ && c.location == Some((se.line, se.column)),
                Result::Ok(doc) => {
                    &&& is_valid_config(doc) ==> (r matches Ok(c) && c@ == spec_config_of(doc))
                    &&& !is_valid_config(doc) ==> (r matches Err(BuildError::Configuration(c))
                        && c.path@ == path@ && c.location == spec_blame_location(
                        text@,
                        config_blame(doc),
                    ))
                },
            },
    {
        let text = match file {
            Ok(t) => t,
            Err(m) => {
                return Err(BuildError::IO(IO::new(String::from_str(path), m)));
            },
        };
        let doc = match parse_json_text(text.as_str()) {
            Ok(d) => d,
            Err(se) => {
                return Err(BuildError::Configuration(Configuration::new_located(
                    String::from_str(path),
                    se.msg,
                    se.line,
                    se.column,
                )));
            },
        };
        match validate_config(&doc) {
            Ok(c) => Ok(c),
            Err(msg) => {
                let blame = config_blame_field(&doc);
                let loc = blame_location(text.as_str(), &blame);
                Err(BuildError::Configuration(match loc {
                    Some((line, column)) => Configuration::new_located(
                        String::from_str(path),
                        msg,
                        line,
                        column,
                    ),
                    None => Configuration::new(String::from_str(path), msg),
                }))
            },
        }
    }

    /// Reads one item record out of the raw outcome of reading its file, the
    /// way `parse_project_config` does for the manifest.
    pub fn parse_item_file(path: &str, file: Result<String, String>) -> (r: Result<
        ItemJsonObj,
        BuildError,
    >)
        ensures
            file matches Err(m) ==> r matches Err(BuildError::IO(e)) && e.path@ == path@ && e.msg@
                == m@,
            file matches Ok(text) ==> match json_parse(text@) {
                Result::Err(se) => r matches Err(BuildError::Configuration(c)) && c.path@ == path@
                    && c.msg@ == se.msg@ && c.location == Some((se.line, se.column)),
                Result::Ok(doc) => {
                    &&& is_valid_item(doc) ==> (r matches Ok(it) && it@ == spec_item_of(doc))
                    &&& !is_valid_item(doc) ==> (r matches Err(BuildError::Configuration(c))
                        && c.path@ == path@ && c.location == spec_blame_location(
                        text@,
                        item_blame(doc),
                    ))
                },
            },
    {
        let text = match file {
            Ok(t) => t,
            Err(m) => {
                return Err(BuildError::IO(IO::new(String::from_str(path), m)));
            },
        };
        let doc = match parse_json_text(text.as_str()) {
            Ok(d) => d,
            Err(se) => {
                return Err(BuildError::Configuration(Configuration::new_located(
                    String::from_str(path),
                    se.msg,
                    se.line,
                    se.column,
                )));
            },
        };
        match validate_item(&doc) {
            Ok(it) => Ok(it),
            Err(msg) => {
                let blame = item_blame_field(&doc);
                let loc = blame_location(text.as_str(), &blame);
                Err(BuildError::Configuration(match loc {
                    Some((line, column)) => Configuration::new_located(
                        String::from_str(path),
                        msg,
                        line,
                        column,
                    ),
                    None => Configuration::new(String::from_str(path), msg),
                }))
            },
        }
    }
}

/// What the build needs its runner to do next.
pub enum BuildAction {
    /// Read the file at this path and hand back `FsEvent::FileRead`.
    ReadFile { path: String },
    /// Enumerate the directory at this path and hand back
    /// `FsEvent::DirListed`.
    ListDir { path: String },
    /// The build is over, with this result.
    Finish { result: Result<Project, BuildError> },
}

/// The raw outcome of one filesystem action.
pub enum FsEvent {
    /// The file's text, or the OS message explaining why it could not be
    /// read.
    FileRead { outcome: Result<String, String> },
    /// The directory enumeration's outcome.
    DirListed { listing: DirOutcome },
}

/// Where a build stands between two filesystem actions.
pub enum BuildPhase {
    /// Awaiting the manifest file's text.
    ReadingManifest,
    /// Awaiting the item directory's entries.
    ListingItems { config: ConfigJsonObj },
    /// Awaiting the text of `pending[next]`; `items` holds the records of
    /// the files before it.
    ReadingItems {
        config: ConfigJsonObj,
        pending: Vec<String>,
        next: usize,
        items: Vec<ItemJsonObj>,
    },
    /// A `Finish` action was produced.
    Finished,
}

/// The verified decision core of a build.
pub struct ProjectBuilder {
    pub paths: PathManager,
    pub phase: BuildPhase,
}

impl ProjectBuilder {
    /// The manifest file's resolved path.
    pub open spec fn spec_manifest_path(&self) -> Seq<char> {
        self.paths.spec_path_in_project("adml.json"@)
    }

    /// The item directory's resolved path.
    pub open spec fn spec_item_dir_path(&self) -> Seq<char> {
        self.paths.spec_path_in_project("item/"@)
    }

    /// Which event kind the current phase awaits.
    pub open spec fn awaits(&self, event: FsEvent) -> bool {
        match self.phase {
            BuildPhase::ReadingManifest => event is FileRead,
            BuildPhase::ListingItems { .. } => event is DirListed,
            BuildPhase::ReadingItems { .. } => event is FileRead,
            BuildPhase::Finished => false,
        }
    }

    /// The builder's internal invariant: while item files are being read,
    /// one file of the pending list is awaited and every earlier file has
    /// its record.
    pub open spec fn wf(&self) -> bool {
        self.phase matches BuildPhase::ReadingItems { pending, next, items, .. } ==> next
            < pending@.len() && items@.len() == next
    }

    /// Starts a build for the project at `project_dir_rel_working_dir`.
    /// The first action reads the manifest: no item file is touched before
    /// the manifest is read and validated.
    pub fn new(working_dir_abs: String, project_dir_rel_working_dir: String) -> (r: (
        ProjectBuilder,
        BuildAction,
    ))
        ensures
            r.0.paths.working_dir_abs@ == working_dir_abs@,
            r.0.paths.project_dir_rel_working_dir@ == project_dir_rel_working_dir@,
            r.0.phase is ReadingManifest,
            r.0.wf(),
            r.1 matches BuildAction::ReadFile { path } && path@ == r.0.spec_manifest_path(),
    {
        let paths = PathManager::new(working_dir_abs, project_dir_rel_working_dir);
        let manifest = paths.path_in_project(PROJECT_CONFIG_PATH);
        let builder = ProjectBuilder { paths, phase: BuildPhase::ReadingManifest };
        (builder, BuildAction::ReadFile { path: manifest.rel_to_working_dir })
    }

    /// Consumes the outcome of the action last asked for and decides the
    /// next one.  Every transition is stated exactly:
    ///
    /// - a failed manifest read finishes the build at once with the `IO`
    ///   error, before any item file is opened;
    /// - a manifest that parses and validates moves the build on to listing
    ///   the item directory; any parse or schema failure finishes it with
    ///   the classified `Configuration` error;
    /// - a missing item directory means zero items; a listed one is
    ///   processed in sorted order;
    /// - each item file is read in turn, and the first failure finishes the
    ///   build with its classified error — no partial project is returned.
    pub fn advance(&mut self, event: FsEvent) -> (a: BuildAction)
        requires
            old(self).wf(),
            old(self).awaits(event),
        ensures
            final(self).wf(),
            final(self).paths == old(self).paths,
            a is Finish <==> final(self).phase is Finished,
            old(self).phase is ReadingManifest ==> (event matches FsEvent::FileRead { outcome }
                && {
                let path = old(self).spec_manifest_path();
                match outcome {
                    Result::Err(m) => a matches BuildAction::Finish { result }
                        && result matches Err(BuildError::IO(e)) && e.path@ == path && e.msg@
                        == m@,
                    Result::Ok(text) => match json_parse(text@) {
                        Result::Err(se) => a matches BuildAction::Finish { result }
                            && result matches Err(BuildError::Configuration(c)) && c.path@
                            == path && c.msg@ == se.msg@ && c.location == Some(
                            (se.line, se.column),
                        ),
                        Result::Ok(doc) => {
                            &&& is_valid_config(doc) ==> (final(self).phase matches
                                BuildPhase::ListingItems { config } && a matches
                                BuildAction::ListDir { path: p } && config@ == spec_config_of(doc)
                                && p@ == old(self).spec_item_dir_path())
                            &&& !is_valid_config(doc) ==> (a matches BuildAction::Finish { result }
                                && result matches Err(BuildError::Configuration(c)) && c.path@
                                == path && c.location == spec_blame_location(
                                text@,
                                config_blame(doc),
                            ))
                        },
                    },
                }
            }),
            old(self).phase matches BuildPhase::ListingItems { config } ==> (event matches
                FsEvent::DirListed { listing: outcome } && {
                let dir = old(self).spec_item_dir_path();
                match outcome {
                    DirOutcome::NotFound => a matches BuildAction::Finish { result }
                        && result matches Ok(p) && p.config_json_obj@ == config@ && p.items@.len()
                        == 0,
                    DirOutcome::Failed { msg } => a matches BuildAction::Finish { result }
                        && result matches Err(BuildError::IO(e)) && e.path@ == dir && e.msg@
                        == msg@,
                    DirOutcome::EntryFailed { msg } => a matches BuildAction::Finish { result }
                        && result matches Err(BuildError::IO(e)) && e.path@ == dir && e.msg@
                        == msg@,
                    DirOutcome::Entries { paths } => {
                        &&& paths@.len() == 0 ==> (a matches BuildAction::Finish { result }
                            && result matches Ok(p) && p.config_json_obj@ == config@
                            && p.items@.len() == 0)
                        &&& paths@.len() > 0 ==> (final(self).phase matches
                            BuildPhase::ReadingItems {
                            config: c2,
                            pending,
                            next,
                            items,
                        } && a matches BuildAction::ReadFile { path: p } && c2@ == config@
                            && next == 0 && items@.len() == 0 && sorted_by(
                            views_of(pending@),
                            str_leq(),
                        ) && views_of(pending@).to_multiset() == views_of(paths@).to_multiset()
                            && p@ == pending@[0]@)
                    },
                }
            }),
            old(self).phase matches BuildPhase::ReadingItems { config, pending, next, items }
                ==> (event matches FsEvent::FileRead { outcome } && {
                let path = pending@[next as int]@;
                match outcome {
                    Result::Err(m) => a matches BuildAction::Finish { result }
                        && result matches Err(BuildError::IO(e)) && e.path@ == path && e.msg@
                        == m@,
                    Result::Ok(text) => match json_parse(text@) {
                        Result::Err(se) => a matches BuildAction::Finish { result }
                            && result matches Err(BuildError::Configuration(c)) && c.path@
                            == path && c.msg@ == se.msg@ && c.location == Some(
                            (se.line, se.column),
                        ),
                        Result::Ok(doc) => {
                            &&& !is_valid_item(doc) ==> (a matches BuildAction::Finish { result }
                                && result matches Err(BuildError::Configuration(c)) && c.path@
                                == path && c.location == spec_blame_location(
                                text@,
                                item_blame(doc),
                            ))
                            &&& (is_valid_item(doc) && next + 1 == pending@.len()) ==> (a matches
                                BuildAction::Finish { result } && result matches Ok(p)
                                && p.config_json_obj@ == config@ && items_views(p.items@)
                                == items_views(items@).push(spec_item_of(doc)))
                            &&& (is_valid_item(doc) && next + 1 < pending@.len()) ==> (final(self).phase matches BuildPhase::ReadingItems {
                                config: c2,
                                pending: pending2,
                                next: next2,
                                items: items2,
                            } && a matches BuildAction::ReadFile { path: p } && c2@ == config@
                                && views_of(pending2@) == views_of(pending@)
                                && next2 == next + 1 && items_views(items2@) == items_views(
                                items@,
                            ).push(spec_item_of(doc)) && p@ == pending@[next + 1]@)
                        },
                    },
                }
            }),
    {
        let mut phase = BuildPhase::Finished;
        core::mem::swap(&mut phase, &mut self.phase);
        match phase {
            BuildPhase::ReadingManifest => {
                let outcome = match event {
                    FsEvent::FileRead { outcome } => outcome,
                    _ => vstd::pervasive::unreached(),
                };
                let manifest = self.paths.path_in_project(PROJECT_CONFIG_PATH);
                match Project::parse_project_config(manifest.rel_to_working_dir.as_str(), outcome) {
                    Ok(config) => {
                        let item_dir = self.paths.path_in_project(ITEM_DIR_PATH);
                        self.phase = BuildPhase::ListingItems { config };
                        BuildAction::ListDir { path: item_dir.rel_to_working_dir }
                    },
                    Err(e) => BuildAction::Finish { result: Err(e) },
                }
            },
            BuildPhase::ListingItems { config } => {
                let outcome = match event {
                    FsEvent::DirListed { listing: outcome } => outcome,
                    _ => vstd::pervasive::unreached(),
                };
                let item_dir = self.paths.path_in_project(ITEM_DIR_PATH);
                let ghost outcome_g = outcome;
                match get_paths_from_dir(item_dir.rel_to_working_dir.as_str(), outcome) {
                    Ok(pending) => {
                        proof {
                            broadcast use vstd::seq_lib::group_to_multiset_ensures;

                            match outcome_g {
                                DirOutcome::Entries { paths } => {
                                    assert(views_of(pending@).to_multiset().len() == views_of(
                                        pending@,
                                    ).len());
                                    assert(views_of(paths@).to_multiset().len() == views_of(
                                        paths@,
                                    ).len());
                                },
                                _ => {},
                            }
                        }
                        if pending.len() == 0 {
                            BuildAction::Finish {
                                result: Ok(Project { config_json_obj: config, items: Vec::new() }),
                            }
                        } else {
                            let first = pending[0].clone();
                            self.phase = BuildPhase::ReadingItems {
                                config,
                                pending,
                                next: 0,
                                items: Vec::new(),
                            };
                            BuildAction::ReadFile { path: first }
                        }
                    },
                    Err(e) => BuildAction::Finish { result: Err(e) },
                }
            },
            BuildPhase::ReadingItems { config, pending, next, items } => {
                let outcome = match event {
                    FsEvent::FileRead { outcome } => outcome,
                    _ => vstd::pervasive::unreached(),
                };
                let path = pending[next].clone();
                match Project::parse_item_file(path.as_str(), outcome) {
                    Ok(item) => {
                        let mut items = items;
                        let ghost items_pre = items@;
                        let ghost item_v = item@;
                        items.push(item);
                        proof {
                            assert(items_views(items@) =~= items_views(items_pre).push(item_v));
                        }
                        let total = pending.len();
                        let next = next + 1;
                        if next == total {
                            BuildAction::Finish {
                                result: Ok(Project { config_json_obj: config, items }),
                            }
                        } else {
                            let file = pending[next].clone();
                            self.phase = BuildPhase::ReadingItems { config, pending, next, items };
                            BuildAction::ReadFile { path: file }
                        }
                    },
                    Err(e) => BuildAction::Finish { result: Err(e) },
                }
            },
            BuildPhase::Finished => vstd::pervasive::unreached(),
        }
    }
}

} // verus!
