use stateless_validation::action::{base64, DeployContractAction, DeployGlobalContractAction, GlobalContractDeployMode};

#[test]
fn base64_of_known_texts() {
    assert_eq!(base64(b""), "");
    assert_eq!(base64(b"f"), "Zg==");
    assert_eq!(base64(b"fo"), "Zm8=");
    assert_eq!(base64(b"foo"), "Zm9v");
    assert_eq!(base64(b"hello"), "aGVsbG8=");
    assert_eq!(base64(&[0xff, 0xfe, 0xfd]), "//79");
}

#[test]
fn contract_code_is_shown_as_base64() {
    let action = DeployContractAction { code: vec![1, 2, 3] };
    assert_eq!(action.code_text(), "AQID");
    let global = DeployGlobalContractAction {
        code: vec![0, 0, 0, 0],
        deploy_mode: GlobalContractDeployMode::CodeHash,
    };
    assert_eq!(global.code_text(), "AAAAAA==");
    assert_eq!(global.deploy_mode, GlobalContractDeployMode::CodeHash);
    assert_ne!(global.deploy_mode, GlobalContractDeployMode::AccountId);
}
