//! The commands that work on a loaded project. Each takes the project, and
//! what an engine reported where it needs that, and leaves reading and
//! writing files to its caller.

use vstd::prelude::*;
use vstd::string::*;
use crate::clean::{clean, clean_project};
use crate::config::{Config, ProjectModel};
use crate::db::{ColumnInfo, ColumnInfoModel, ReferenceInfo, ReferenceInfoModel};
use crate::error::{Error, ErrorModel};
use crate::generate::{
    generate_all, generate_all_spec, generate_from_starting_table,
    generate_from_starting_table_spec,
};
use crate::scan::{
    collapse_project, install_references, install_tables, merge_references, merge_rows,
    scan_references, scan_tables_and_columns, search_for_composite_primary_keys,
};
use crate::search::{search, search_spec, with_custom_references};
use crate::validate::{findings, validate, Finding};

verus! {

/// What every command has: a sentence that announces it.
pub trait Command {
    /// The sentence that announces the command.
    spec fn starting_message(&self) -> Seq<char>;

    /// Writes the sentence that announces the command.
    fn get_starting_message(&self) -> (message: String)
        ensures
            message@ == self.starting_message(),
    ;
}

/// Scans the databases of a project.
#[derive(Debug, Clone, PartialEq, Eq)]
pub struct ScanCommand {
    pub project: String,
}

/// What the completed scan of one database reported.
#[derive(Debug, Clone, PartialEq, Eq)]
pub struct DatabaseScan {
    pub database_name: String,
    pub columns: Vec<ColumnInfo>,
    pub references: Vec<ReferenceInfo>,
}

/// The model of a [`DatabaseScan`].
pub struct DatabaseScanModel {
    pub database_name: Seq<char>,
    pub columns: Seq<ColumnInfoModel>,
    pub references: Seq<ReferenceInfoModel>,
}

impl DeepView for DatabaseScan {
    type V = DatabaseScanModel;

    open spec fn deep_view(&self) -> DatabaseScanModel {
        DatabaseScanModel {
            database_name: self.database_name@,
            columns: self.columns.deep_view(),
            references: self.references.deep_view(),
        }
    }
}

/// The project with the tables of each scanned database replaced by those
/// that its scan reported.
pub open spec fn install_scanned_tables(
    project: ProjectModel,
    scans: Seq<DatabaseScanModel>,
) -> ProjectModel
    decreases scans.len(),
{
    if scans.len() == 0 {
        project
    } else {
        install_tables(
            install_scanned_tables(project, scans.drop_last()),
            scans.last().database_name,
            merge_rows(scans.last().columns),
        )
    }
}

/// The project with the references of each scanned database replaced by
/// those that its scan reported.
pub open spec fn install_scanned_references(
    project: ProjectModel,
    scans: Seq<DatabaseScanModel>,
) -> ProjectModel
    decreases scans.len(),
{
    if scans.len() == 0 {
        project
    } else {
        install_references(
            install_scanned_references(project, scans.drop_last()),
            scans.last().database_name,
            merge_references(scans.last().database_name, scans.last().references),
        )
    }
}

/// The project after a scan: the reported tables are installed, composite
/// primary keys are collapsed, and the reported references are installed.
pub open spec fn scan_project(project: ProjectModel, scans: Seq<DatabaseScanModel>) -> ProjectModel {
    install_scanned_references(collapse_project(install_scanned_tables(project, scans)), scans)
}

impl Command for ScanCommand {
    open spec fn starting_message(&self) -> Seq<char> {
        "Scanning project '"@ + self.project@ + "'"@
    }

    fn get_starting_message(&self) -> (message: String) {
        let mut message = String::from_str("Scanning project '");
        message.append(self.project.as_str());
        message.append("'");
        message
    }
}

impl ScanCommand {
    /// Brings the project up to date with the scans that completed. A
    /// database whose scan failed is not among them and keeps what it had.
    pub fn execute(&self, config: &mut Config, scans: &Vec<DatabaseScan>)
        ensures
            final(config).deep_view() == scan_project(old(config).deep_view(), scans.deep_view()),
    {
        let mut i: usize = 0;
        assert(scans.deep_view().take(0) =~= Seq::empty());
        while i < scans.len()
            invariant
                i <= scans.len(),
                config.deep_view() == install_scanned_tables(
                    old(config).deep_view(),
                    scans.deep_view().take(i as int),
                ),
            decreases scans.len() - i,
        {
            proof {
                let next = scans.deep_view().take(i + 1);
                assert(next.drop_last() =~= scans.deep_view().take(i as int));
                assert(next.last() == scans@[i as int].deep_view());
            }
            scan_tables_and_columns(config, scans[i].database_name.as_str(), &scans[i].columns);
            i = i + 1;
        }
        assert(scans.deep_view().take(i as int) =~= scans.deep_view());
        search_for_composite_primary_keys(config);
        let ghost collapsed = config.deep_view();
        let mut j: usize = 0;
        while j < scans.len()
            invariant
                j <= scans.len(),
                config.deep_view() == install_scanned_references(
                    collapsed,
                    scans.deep_view().take(j as int),
                ),
            decreases scans.len() - j,
        {
            proof {
                let next = scans.deep_view().take(j + 1);
                assert(next.drop_last() =~= scans.deep_view().take(j as int));
                assert(next.last() == scans@[j as int].deep_view());
            }
            scan_references(config, scans[j].database_name.as_str(), &scans[j].references);
            j = j + 1;
        }
        assert(scans.deep_view().take(j as int) =~= scans.deep_view());
    }
}

/// Generates the DBML text of a project, or of what one table depends on.
#[derive(Debug, Clone, PartialEq, Eq)]
pub struct GenerateCommand {
    pub project: String,
    pub starting_table: Option<String>,
}

/// The text that a generate command writes.
pub open spec fn generate_spec(project: ProjectModel, starting_table: Option<Seq<char>>) -> Result<
    Seq<char>,
    ErrorModel,
> {
    match starting_table {
        Some(start) => generate_from_starting_table_spec(project, start),
        None => Ok(generate_all_spec(project)),
    }
}

impl Command for GenerateCommand {
    open spec fn starting_message(&self) -> Seq<char> {
        "Generating the DBML file for project '"@ + self.project@ + "'"@
    }

    fn get_starting_message(&self) -> (message: String) {
        let mut message = String::from_str("Generating the DBML file for project '");
        message.append(self.project.as_str());
        message.append("'");
        message
    }
}

impl GenerateCommand {
    /// Writes the text of the output file.
    pub fn execute(&self, config: &Config) -> (dbml: Result<String, Error>)
        ensures
            match dbml {
                Ok(text) => generate_spec(config.deep_view(), self.starting_table.deep_view())
                    == Ok::<Seq<char>, ErrorModel>(text@),
                Err(error) => generate_spec(config.deep_view(), self.starting_table.deep_view())
                    == Err::<Seq<char>, ErrorModel>(error.deep_view()),
            },
    {
        match &self.starting_table {
            Some(start) => generate_from_starting_table(config, start),
            None => Ok(generate_all(config)),
        }
    }
}

/// Searches a project for unmapped columns whose name matches a pattern.
#[derive(Debug, Clone, PartialEq, Eq)]
pub struct SearchCommand {
    pub project: String,
    pub regex: String,
    pub referenced_key: Option<String>,
}

impl Command for SearchCommand {
    open spec fn starting_message(&self) -> Seq<char> {
        "Looking for unmapped columns in the "@ + self.project@ + " project that match "@
            + self.regex@
    }

    fn get_starting_message(&self) -> (message: String) {
        let mut message = String::from_str("Looking for unmapped columns in the ");
        message.append(self.project.as_str());
        message.append(" project that match ");
        message.append(self.regex.as_str());
        message
    }
}

impl SearchCommand {
    /// Runs the search and returns the keys of the unmapped columns.
    pub fn execute(&self, config: &mut Config) -> (found: Result<Vec<String>, Error>)
        ensures
            match search_spec(
                old(config).deep_view(),
                self.regex@,
                self.referenced_key.deep_view(),
            ) {
                Ok(outcome) => {
                    &&& found matches Ok(keys) && keys.deep_view() == outcome.found
                    &&& final(config).deep_view() == with_custom_references(
                        old(config).deep_view(),
                        outcome.custom_references,
                    )
                },
                Err(error) => {
                    &&& found matches Err(e) && e.deep_view() == error
                    &&& final(config).deep_view() == old(config).deep_view()
                },
            },
            self.referenced_key is None ==> final(config).deep_view() == old(config).deep_view(),
    {
        match &self.referenced_key {
            Some(key) => search(config, self.regex.as_str(), Some(key)),
            None => search(config, self.regex.as_str(), None),
        }
    }
}

/// Checks the reference maps of a project.
#[derive(Debug, Clone, PartialEq, Eq)]
pub struct ValidateCommand {
    pub project: String,
}

impl Command for ValidateCommand {
    open spec fn starting_message(&self) -> Seq<char> {
        "Validating the config file of the '"@ + self.project@ + "' project"@
    }

    fn get_starting_message(&self) -> (message: String) {
        let mut message = String::from_str("Validating the config file of the '");
        message.append(self.project.as_str());
        message.append("' project");
        message
    }
}

impl ValidateCommand {
    /// Runs the checks and returns what they found.
    pub fn execute(&self, config: &Config) -> (found: Vec<Finding>)
        ensures
            found.deep_view() == findings(config.deep_view()),
    {
        validate(config)
    }
}

/// Removes what scans found from a project.
#[derive(Debug, Clone, PartialEq, Eq)]
pub struct CleanCommand {
    pub project: String,
}

impl Command for CleanCommand {
    open spec fn starting_message(&self) -> Seq<char> {
        "Validating the config file of the '"@ + self.project@ + "' project"@
    }

    fn get_starting_message(&self) -> (message: String) {
        let mut message = String::from_str("Validating the config file of the '");
        message.append(self.project.as_str());
        message.append("' project");
        message
    }
}

impl CleanCommand {
    /// Removes the tables of every database and the scanned references.
    pub fn execute(&self, config: &mut Config)
        ensures
            final(config).deep_view() == clean_project(old(config).deep_view()),
    {
        clean(config)
    }
}

} // verus!
