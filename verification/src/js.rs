//! Page-side scripts injected for observability: the in-page prompt box
//! the interactive driver reads instructions from.

use vstd::prelude::*;

verus! {

/// The script installing the in-page prompt and output boxes. The boxes
/// are cosmetic; submitting marks the input with a `data-submitted` flag
/// that the driver polls.
pub fn chat_prompt_red_ui() -> (r: String)
    ensures
        r@.len() > 0,
{
    proof {
        reveal_strlit(
            "\n    (function() {\n        if (document.getElementById('iu-prompt-wrapper')) return;\n\n        const style = document.createElement('style');\n        style.textContent = `\n            #iu-prompt-wrapper {\n                position: fixed;\n                bottom: 20px;\n                left: 20px;\n                z-index: 9999;\n                display: flex;\n                flex-direction: column;\n                gap: 12px;\n                font-family: sans-serif;\n            }\n\n            .iu-box {\n                width: 340px;\n                padding: 12px;\n                background: rgba(0, 0, 0, 0.0);\n                color: red;\n                border-radius: 10px;\n                font-size: 14px;\n            }\n\n            #iu-prompt-input {\n                width: 100%;\n                padding: 10px;\n                border: 1px solid red;\n                border-radius: 8px;\n                background: rgba(0, 0, 0, 0.2);\n                color: red;\n                font-size: 14px;\n            }\n\n            #iu-output-textarea {\n                width: 100%;\n                height: 120px;\n                resize: none;\n                background: rgba(0, 0, 0, 0.2);\n                border: 1px solid red;\n                color: red;\n                font-size: 13px;\n                padding: 10px;\n                border-radius: 8px;\n                font-family: monospace;\n            }\n        `;\n        document.head.appendChild(style);\n\n        const wrapper = document.createElement('div');\n        wrapper.id = 'iu-prompt-wrapper';\n\n        const promptBox = document.createElement('div');\n        promptBox.className = 'iu-box';\n\n        const input = document.createElement('input');\n        input.id = 'iu-prompt-input';\n        input.placeholder = 'Prompt...';\n        input.type = 'text';\n        promptBox.appendChild(input);\n        wrapper.appendChild(promptBox);\n\n        const outputBox = document.createElement('div');\n        outputBox.className = 'iu-box';\n\n        const outputArea = document.createElement('textarea');\n        outputArea.id = 'iu-output-textarea';\n        outputArea.placeholder = 'Agent output...';\n        outputBox.appendChild(outputArea);\n        wrapper.appendChild(outputBox);\n\n        document.body.appendChild(wrapper);\n\n        // Flag input as \"ready\" when Enter is pressed\n        input.addEventListener('keydown', function(e) {\n            if (e.key === 'Enter') {\n                e.preventDefault();\n                input.setAttribute('data-submitted', 'true');\n            }\n        });\n    })();\n    ",
        );
    }
    String::from_str(
        "\n    (function() {\n        if (document.getElementById('iu-prompt-wrapper')) return;\n\n        const style = document.createElement('style');\n        style.textContent = `\n            #iu-prompt-wrapper {\n                position: fixed;\n                bottom: 20px;\n                left: 20px;\n                z-index: 9999;\n                display: flex;\n                flex-direction: column;\n                gap: 12px;\n                font-family: sans-serif;\n            }\n\n            .iu-box {\n                width: 340px;\n                padding: 12px;\n                background: rgba(0, 0, 0, 0.0);\n                color: red;\n                border-radius: 10px;\n                font-size: 14px;\n            }\n\n            #iu-prompt-input {\n                width: 100%;\n                padding: 10px;\n                border: 1px solid red;\n                border-radius: 8px;\n                background: rgba(0, 0, 0, 0.2);\n                color: red;\n                font-size: 14px;\n            }\n\n            #iu-output-textarea {\n                width: 100%;\n                height: 120px;\n                resize: none;\n                background: rgba(0, 0, 0, 0.2);\n                border: 1px solid red;\n                color: red;\n                font-size: 13px;\n                padding: 10px;\n                border-radius: 8px;\n                font-family: monospace;\n            }\n        `;\n        document.head.appendChild(style);\n\n        const wrapper = document.createElement('div');\n        wrapper.id = 'iu-prompt-wrapper';\n\n        const promptBox = document.createElement('div');\n        promptBox.className = 'iu-box';\n\n        const input = document.createElement('input');\n        input.id = 'iu-prompt-input';\n        input.placeholder = 'Prompt...';\n        input.type = 'text';\n        promptBox.appendChild(input);\n        wrapper.appendChild(promptBox);\n\n        const outputBox = document.createElement('div');\n        outputBox.className = 'iu-box';\n\n        const outputArea = document.createElement('textarea');\n        outputArea.id = 'iu-output-textarea';\n        outputArea.placeholder = 'Agent output...';\n        outputBox.appendChild(outputArea);\n        wrapper.appendChild(outputBox);\n\n        document.body.appendChild(wrapper);\n\n        // Flag input as \"ready\" when Enter is pressed\n        input.addEventListener('keydown', function(e) {\n            if (e.key === 'Enter') {\n                e.preventDefault();\n                input.setAttribute('data-submitted', 'true');\n            }\n        });\n    })();\n    ",
    )
}

} // verus!
