use disktui::model::ActionId;

#[test]
fn action_labels_are_distinct_and_present() {
    let all = [
        ActionId::Mount, ActionId::Unmount, ActionId::MountOptions, ActionId::Label, ActionId::Format,
        ActionId::FormatDisk, ActionId::Delete, ActionId::CreatePartition, ActionId::Resize,
        ActionId::EditPartition, ActionId::Check, ActionId::Repair, ActionId::TakeOwnership,
        ActionId::Unlock, ActionId::Lock, ActionId::ChangePassphrase, ActionId::HeaderBackup,
        ActionId::RestoreHeader, ActionId::ConvertLuks, ActionId::SwapOn, ActionId::SwapOff,
        ActionId::Smart, ActionId::SmartTest, ActionId::Benchmark, ActionId::CreateImage,
        ActionId::RestoreImage, ActionId::DriveSettings, ActionId::Standby, ActionId::Wakeup,
        ActionId::PowerOff, ActionId::Eject, ActionId::AttachImage, ActionId::DetachLoop,
        ActionId::SecureErase, ActionId::Sanitize, ActionId::RaidCreate, ActionId::RaidStart,
        ActionId::RaidStop, ActionId::RaidDelete, ActionId::Rescan,
    ];
    for (i, a) in all.iter().enumerate() {
        assert!(!a.label().is_empty());
        for b in &all[i + 1..] {
            assert_ne!(a.label(), b.label());
        }
    }
    assert_eq!(ActionId::Sanitize.label(), "NVMe sanitize");
}
