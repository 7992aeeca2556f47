//! The Python that the server runs: the script that executes one cell of a
//! notebook. Running it is the caller's work.
use crate::ai::model_builder::decimal;
use crate::ai::model_builder::decimal_string;
use vstd::prelude::*;
use vstd::string::StringExecFns;

verus! {

/// The script up to the path of the notebook.
pub const SCRIPT_HEAD: &'static str =
    "\nimport json\nfrom jupyter_client import KernelManager\nimport time\n\n# Create a kernel manager\nkm = KernelManager()\nkm.start_kernel()\n\n# Get the client\nkc = km.client()\nkc.start_channels()\n\n# Load the notebook\nwith open('";

/// The script between the path of the notebook and the index of the cell.
pub const SCRIPT_MIDDLE: &'static str =
    "', 'r') as f:\n    notebook = json.load(f)\n\n# Get the cell to execute\ncell = notebook['cells'][";

/// The script behind the index of the cell.
pub const SCRIPT_TAIL: &'static str =
    "]\n\n# Execute the cell\nmsg_id = kc.execute(cell['source'])\n\n# Get the result\noutputs = []\nwhile True:\n    try:\n        msg = kc.get_iopub_msg(timeout=1)\n        if msg['parent_header'].get('msg_id') == msg_id:\n            if msg['msg_type'] == 'status' and msg['content']['execution_state'] == 'idle':\n                break\n            if 'data' in msg['content']:\n                outputs.append(msg['content']['data']['text/plain'])\n    except Exception as e:\n        break\n\n# Clean up\nkc.stop_channels()\nkm.shutdown_kernel()\n\n# Return the outputs as a string\nprint('\\n'.join(outputs))\n";

/// The script that executes the cell `cell_index` of the notebook at
/// `notebook_path` and prints what the cell put out: the path and the index
/// set into the fixed text, the path as it is and the index in decimal.
pub open spec fn cell_script(notebook_path: Seq<char>, cell_index: nat) -> Seq<char> {
    SCRIPT_HEAD@ + notebook_path + SCRIPT_MIDDLE@ + decimal(cell_index) + SCRIPT_TAIL@
}

/// The script that executes the cell `cell_index` of the notebook at
/// `notebook_path`.
pub fn notebook_cell_script(notebook_path: &str, cell_index: usize) -> (script: String)
    ensures
        script@ == cell_script(notebook_path@, cell_index as nat),
{
    let index = decimal_string(cell_index as u64);
    let mut script = String::from_str(SCRIPT_HEAD);
    script.append(notebook_path);
    script.append(SCRIPT_MIDDLE);
    script.append(index.as_str());
    script.append(SCRIPT_TAIL);
    script
}

} // verus!
