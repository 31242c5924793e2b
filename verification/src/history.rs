//! The closed set of operations the update history records, with their
//! display labels.  Persisting history entries is the caller's concern.

use vstd::prelude::*;
use vstd::string::StringExecFns;

verus! {

/// What kind of operation a history entry records.
#[derive(Debug, Clone, PartialEq, Eq, Structural)]
pub enum OperationType {
    ManualUpdate,
    AutoUpdate,
    CheckUpdates,
    CleanCache,
    DatabaseUpdate,
    SystemMaintenance,
    PackageInstall,
    PackageRemove,
}

/// The display label of each operation kind.
pub open spec fn operation_label(o: OperationType) -> Seq<char> {
    match o {
        OperationType::ManualUpdate => "Mise à jour manuelle"@,
        OperationType::AutoUpdate => "Mise à jour automatique"@,
        OperationType::CheckUpdates => "Vérification des mises à jour"@,
        OperationType::CleanCache => "Nettoyage du cache"@,
        OperationType::DatabaseUpdate => "Mise à jour de la base de données"@,
        OperationType::SystemMaintenance => "Maintenance système"@,
        OperationType::PackageInstall => "Installation de paquet"@,
        OperationType::PackageRemove => "Suppression de paquet"@,
    }
}

impl OperationType {
    /// The operation's display label.
    pub fn label(&self) -> (r: String)
        ensures
            r@ == operation_label(*self),
    {
        match self {
            OperationType::ManualUpdate => String::from_str("Mise à jour manuelle"),
            OperationType::AutoUpdate => String::from_str("Mise à jour automatique"),
            OperationType::CheckUpdates => String::from_str("Vérification des mises à jour"),
            OperationType::CleanCache => String::from_str("Nettoyage du cache"),
            OperationType::DatabaseUpdate => String::from_str(
                "Mise à jour de la base de données",
            ),
            OperationType::SystemMaintenance => String::from_str("Maintenance système"),
            OperationType::PackageInstall => String::from_str("Installation de paquet"),
            OperationType::PackageRemove => String::from_str("Suppression de paquet"),
        }
    }
}

} // verus!
